use field_kinds::{
    compile, CategoryCatalog, CompiledSchema, FieldDecl, FieldKinds, FieldKindsExt, NumberKind,
    RecordDecl, SequenceKind, TextKind, TypeShape, VisitFields,
};

fn prop_test_struct() -> CompiledSchema {
    let decl = RecordDecl::new("PropTestStruct")
        .with_field(FieldDecl::new("field1", TypeShape::Text(TextKind::String)).tagged("a").tagged("b"))
        .with_field(FieldDecl::new("field2", TypeShape::Number(NumberKind::I32)).tagged("b").tagged("c"))
        .with_field(FieldDecl::new("field3", TypeShape::Bool).tagged("c"))
        .with_field(FieldDecl::new(
            "field4",
            TypeShape::Sequence(SequenceKind::Vec, Box::new(TypeShape::Number(NumberKind::U8))),
        ));
    compile(&decl, &CategoryCatalog::new()).unwrap()
}

#[test]
fn invariant_count_matches_names_len() {
    let s = prop_test_struct();
    assert_eq!(s.field_count(), s.field_names().len());
}

#[test]
fn invariant_names_equal_without_rename() {
    let decl = RecordDecl::new("NoRenameStruct")
        .with_field(FieldDecl::new("alpha", TypeShape::Number(NumberKind::I32)))
        .with_field(FieldDecl::new("beta", TypeShape::Text(TextKind::String)));
    let s = compile(&decl, &CategoryCatalog::new()).unwrap();
    assert_eq!(s.field_names(), s.serialized_names());
}

#[test]
fn invariant_names_unique() {
    let names = prop_test_struct().field_names();
    let unique: std::collections::HashSet<_> = names.iter().collect();
    assert_eq!(names.len(), unique.len());
}

#[test]
fn invariant_has_field_consistent() {
    let s = prop_test_struct();
    for name in s.field_names() {
        assert!(s.has_field(&name), "has_field must hold for {}", name);
    }
}

#[test]
fn invariant_category_exists_for_all_fields() {
    let s = prop_test_struct();
    for name in s.field_names() {
        assert!(s.field_category(&name).is_some(), "field_category must be present for {}", name);
    }
}

#[test]
fn invariant_categories_cover_all_fields() {
    let s = prop_test_struct();
    let categories = ["numeric", "text", "bool", "optional", "collection", "unknown"];
    let mut all_fields: Vec<String> = Vec::new();

    for cat in categories {
        all_fields.extend(s.fields_by_category(cat));
    }

    let mut expected = s.field_names();
    all_fields.sort();
    expected.sort();

    assert_eq!(all_fields, expected);
}

#[test]
fn invariant_meta_len() {
    let s = prop_test_struct();
    assert_eq!(s.field_meta().len(), s.field_count());
}

#[test]
fn queries_on_unknown_inputs_return_nothing() {
    let s = prop_test_struct();
    for probe in ["", "zzz", "field", "field_1", "FIELD1", "numeric"] {
        assert!(s.fields_by_tag(probe).is_empty());
        assert!(!s.has_field(probe));
        assert!(s.field_category(probe).is_none());
    }
    assert!(s.fields_by_category("nonexistent").is_empty());
}

#[test]
fn compiling_twice_gives_identical_metadata() {
    let a = prop_test_struct();
    let b = prop_test_struct();
    assert_eq!(a.field_meta().len(), b.field_meta().len());
    for (x, y) in a.field_meta().iter().zip(b.field_meta().iter()) {
        assert_eq!(x.name, y.name);
        assert_eq!(x.serialized_name, y.serialized_name);
        assert_eq!(x.category, y.category);
        assert_eq!(x.tags, y.tags);
    }
}
