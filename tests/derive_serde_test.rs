use field_kinds::{
    compile, CategoryCatalog, CompiledSchema, FieldDecl, FieldKindsExt, NumberKind, RecordDecl,
    TextKind, TypeShape,
};

fn text(name: &str) -> FieldDecl {
    FieldDecl::new(name, TypeShape::Text(TextKind::String))
}

fn number(name: &str) -> FieldDecl {
    FieldDecl::new(name, TypeShape::Number(NumberKind::U64))
}

fn flag(name: &str) -> FieldDecl {
    FieldDecl::new(name, TypeShape::Bool)
}

fn build(decl: RecordDecl) -> CompiledSchema {
    compile(&decl, &CategoryCatalog::new()).unwrap()
}

#[test]
fn rename_all_camel_case() {
    let s = build(
        RecordDecl::new("CamelCaseStruct")
            .with_rename_all("camelCase")
            .with_field(text("user_name"))
            .with_field(number("created_at"))
            .with_field(flag("is_active")),
    );
    assert_eq!(s.serialized_names(), vec!["userName", "createdAt", "isActive"]);
}

#[test]
fn rename_all_snake_case() {
    let s = build(
        RecordDecl::new("SnakeCaseStruct")
            .with_rename_all("snake_case")
            .with_field(text("userName"))
            .with_field(number("createdAt")),
    );
    assert_eq!(s.serialized_names(), vec!["user_name", "created_at"]);
}

#[test]
fn rename_all_pascal_case() {
    let s = build(
        RecordDecl::new("PascalCaseStruct")
            .with_rename_all("PascalCase")
            .with_field(text("user_name"))
            .with_field(flag("is_active")),
    );
    assert_eq!(s.serialized_names(), vec!["UserName", "IsActive"]);
}

#[test]
fn rename_all_screaming_snake() {
    let s = build(
        RecordDecl::new("ScreamingSnakeStruct")
            .with_rename_all("SCREAMING_SNAKE_CASE")
            .with_field(text("user_name"))
            .with_field(flag("is_active")),
    );
    assert_eq!(s.serialized_names(), vec!["USER_NAME", "IS_ACTIVE"]);
}

#[test]
fn rename_all_kebab_case() {
    let s = build(
        RecordDecl::new("KebabCaseStruct")
            .with_rename_all("kebab-case")
            .with_field(text("user_name"))
            .with_field(flag("is_active")),
    );
    assert_eq!(s.serialized_names(), vec!["user-name", "is-active"]);
}

#[test]
fn field_rename() {
    let s = build(
        RecordDecl::new("FieldRenameStruct")
            .with_field(number("id").renamed("ID"))
            .with_field(text("name").renamed("displayName"))
            .with_field(flag("normal_field")),
    );
    assert_eq!(s.serialized_names(), vec!["ID", "displayName", "normal_field"]);
}

#[test]
fn combined_rename() {
    let s = build(
        RecordDecl::new("CombinedRenameStruct")
            .with_rename_all("camelCase")
            .with_field(text("user_name"))
            .with_field(number("user_id").renamed("ID"))
            .with_field(flag("is_active")),
    );
    assert_eq!(s.serialized_names(), vec!["userName", "ID", "isActive"]);
}

#[test]
fn unknown_rule_leaves_names_unchanged() {
    let s = build(
        RecordDecl::new("UnknownRule")
            .with_rename_all("Train-Case")
            .with_field(text("user_name")),
    );
    assert_eq!(s.serialized_names(), vec!["user_name"]);
}
