use field_kinds::{
    compile, CategoryCatalog, CompiledSchema, FieldDecl, FieldKinds, FieldKindsExt, FieldMeta,
    MapKind, NumberKind, RecordDecl, SequenceKind, TextKind, TypeShape, VisitFields,
};

fn simple_struct() -> CompiledSchema {
    let decl = RecordDecl::new("SimpleStruct")
        .with_field(FieldDecl::new("id", TypeShape::Number(NumberKind::U64)))
        .with_field(FieldDecl::new("name", TypeShape::Text(TextKind::String)))
        .with_field(FieldDecl::new("active", TypeShape::Bool));
    compile(&decl, &CategoryCatalog::new()).unwrap()
}

#[test]
fn field_count() {
    assert_eq!(simple_struct().field_count(), 3);
}

#[test]
fn derive_basic_test_field_names() {
    let names = simple_struct().field_names();
    assert_eq!(names, vec!["id", "name", "active"]);
}

#[test]
fn serialized_names_default() {
    let names = simple_struct().serialized_names();
    assert_eq!(names, vec!["id", "name", "active"]);
}

#[test]
fn derive_basic_test_has_field() {
    let s = simple_struct();
    assert!(s.has_field("id"));
    assert!(s.has_field("name"));
    assert!(s.has_field("active"));
    assert!(!s.has_field("nonexistent"));
}

#[test]
fn field_category() {
    let s = simple_struct();
    assert_eq!(s.field_category("id").as_deref(), Some("numeric"));
    assert_eq!(s.field_category("name").as_deref(), Some("text"));
    assert_eq!(s.field_category("active").as_deref(), Some("bool"));
    assert_eq!(s.field_category("nonexistent"), None);
}

#[test]
fn fields_by_category() {
    let s = simple_struct();
    assert_eq!(s.fields_by_category("numeric"), vec!["id"]);
    assert_eq!(s.fields_by_category("text"), vec!["name"]);
    assert_eq!(s.fields_by_category("bool"), vec!["active"]);
    assert!(s.fields_by_category("optional").is_empty());
}

#[test]
fn derive_basic_test_field_meta() {
    let s = simple_struct();
    let meta: &[FieldMeta] = s.field_meta();
    assert_eq!(meta.len(), 3);

    assert_eq!(meta[0].name, "id");
    assert_eq!(meta[0].category, "numeric");

    assert_eq!(meta[1].name, "name");
    assert_eq!(meta[1].category, "text");

    assert_eq!(meta[2].name, "active");
    assert_eq!(meta[2].category, "bool");
}

#[test]
fn empty_struct() {
    let s = compile(&RecordDecl::new("EmptyStruct"), &CategoryCatalog::new()).unwrap();
    assert_eq!(s.field_count(), 0);
    assert!(s.field_names().is_empty());
}

#[test]
fn collection_struct_categories() {
    let decl = RecordDecl::new("CollectionStruct")
        .with_field(FieldDecl::new(
            "items",
            TypeShape::Sequence(SequenceKind::Vec, Box::new(TypeShape::Text(TextKind::String))),
        ))
        .with_field(FieldDecl::new(
            "count",
            TypeShape::Optional(Box::new(TypeShape::Number(NumberKind::U32))),
        ))
        .with_field(FieldDecl::new(
            "data",
            TypeShape::Mapping(
                MapKind::HashMap,
                Box::new(TypeShape::Text(TextKind::String)),
                Box::new(TypeShape::Number(NumberKind::I32)),
            ),
        ));
    let s = compile(&decl, &CategoryCatalog::new()).unwrap();
    assert_eq!(s.fields_by_category("collection"), vec!["items", "data"]);
    assert_eq!(s.fields_by_category("optional"), vec!["count"]);
}
