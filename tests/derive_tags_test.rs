use field_kinds::{
    compile, CategoryCatalog, CompiledSchema, FieldDecl, FieldKinds, FieldKindsExt, NumberKind,
    RecordDecl, TextKind, TypeShape, VisitFields,
};

fn tagged_struct() -> CompiledSchema {
    let decl = RecordDecl::new("TaggedStruct")
        .with_field(
            FieldDecl::new("email", TypeShape::Text(TextKind::String))
                .tagged("tag1")
                .tagged("sensitive"),
        )
        .with_field(FieldDecl::new("phone", TypeShape::Text(TextKind::String)).tagged("tag1"))
        .with_field(FieldDecl::new("id", TypeShape::Number(NumberKind::U64)).tagged("indexed"))
        .with_field(FieldDecl::new("normal", TypeShape::Bool));
    compile(&decl, &CategoryCatalog::new()).unwrap()
}

#[test]
fn fields_by_tag() {
    let s = tagged_struct();
    assert_eq!(s.fields_by_tag("tag1"), vec!["email", "phone"]);
    assert_eq!(s.fields_by_tag("sensitive"), vec!["email"]);
    assert_eq!(s.fields_by_tag("indexed"), vec!["id"]);
    assert!(s.fields_by_tag("nonexistent").is_empty());
}

#[test]
fn field_meta_contains_tags() {
    let s = tagged_struct();
    let meta = s.field_meta();

    let email_meta = meta.iter().find(|m| m.name == "email").unwrap();
    assert_eq!(email_meta.tags, vec!["tag1", "sensitive"]);

    let normal_meta = meta.iter().find(|m| m.name == "normal").unwrap();
    assert!(normal_meta.tags.is_empty());
}

#[test]
fn skip_field() {
    let decl = RecordDecl::new("SkipStruct")
        .with_field(FieldDecl::new("visible", TypeShape::Text(TextKind::String)))
        .with_field(FieldDecl::new("hidden", TypeShape::Text(TextKind::String)).skipped())
        .with_field(FieldDecl::new("also_visible", TypeShape::Number(NumberKind::U32)));
    let s = compile(&decl, &CategoryCatalog::new()).unwrap();
    assert_eq!(s.field_count(), 2);
    assert_eq!(s.field_names(), vec!["visible", "also_visible"]);
    assert!(!s.has_field("hidden"));
}

#[test]
fn skip_with_tags() {
    let decl = RecordDecl::new("MixedStruct")
        .with_field(FieldDecl::new("keep", TypeShape::Text(TextKind::String)).tagged("important"))
        .with_field(
            FieldDecl::new("skipped", TypeShape::Text(TextKind::String))
                .skipped()
                .tagged("should_not_appear"),
        );
    let s = compile(&decl, &CategoryCatalog::new()).unwrap();
    assert_eq!(s.fields_by_tag("important"), vec!["keep"]);
    assert!(s.fields_by_tag("should_not_appear").is_empty());
}
