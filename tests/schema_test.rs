use field_kinds::{
    category_of, compile, parse_case_rule, serialized_name, AnnotationValue, Bool, CaseRule,
    CatalogError, CategoryCatalog, Collection, FieldDecl, FieldKinds, FieldKindsExt, MapKind,
    NumberKind, Numeric, Optional, RecordDecl, RecordShape, SchemaError, SequenceKind, Text,
    TextKind, TypeCategory, TypeShape, Unknown,
};
use std::collections::{BTreeMap, BTreeSet, HashMap, HashSet};

fn classify(ty: TypeShape) -> String {
    CategoryCatalog::new().resolve(&ty)
}

#[test]
fn user_scenario() {
    let decl = RecordDecl::new("User")
        .with_rename_all("camelCase")
        .with_field(FieldDecl::new("user_id", TypeShape::Number(NumberKind::U64)))
        .with_field(FieldDecl::new("user_name", TypeShape::Text(TextKind::String)))
        .with_field(FieldDecl::new("is_active", TypeShape::Bool))
        .with_field(
            FieldDecl::new(
                "email",
                TypeShape::Optional(Box::new(TypeShape::Text(TextKind::String))),
            )
            .tagged("sensitive")
            .tagged("pii"),
        );
    let s = compile(&decl, &CategoryCatalog::new()).unwrap();
    assert_eq!(s.field_names(), vec!["user_id", "user_name", "is_active", "email"]);
    assert_eq!(s.serialized_names(), vec!["userId", "userName", "isActive", "email"]);
    assert_eq!(s.fields_by_category("numeric"), vec!["user_id"]);
    assert_eq!(s.fields_by_category("text"), vec!["user_name"]);
    assert_eq!(s.fields_by_category("optional"), vec!["email"]);
    assert_eq!(s.fields_by_tag("sensitive"), vec!["email"]);
    assert!(s.has_field("user_id"));
    assert!(!s.has_field("nonexistent"));
}

#[test]
fn explicit_rename_beats_container_rule() {
    let decl = RecordDecl::new("R")
        .with_rename_all("camelCase")
        .with_field(FieldDecl::new("user_id", TypeShape::Number(NumberKind::U64)).renamed("ID"));
    let s = compile(&decl, &CategoryCatalog::new()).unwrap();
    assert_eq!(s.serialized_names(), vec!["ID"]);
}

#[test]
fn skipped_field_is_absent_everywhere() {
    let decl = RecordDecl::new("R")
        .with_field(FieldDecl::new("kept", TypeShape::Bool))
        .with_field(
            FieldDecl::new("gone", TypeShape::Number(NumberKind::U8)).tagged("secret").skipped(),
        );
    let s = compile(&decl, &CategoryCatalog::new()).unwrap();
    assert_eq!(s.field_count(), 1);
    assert_eq!(s.field_names(), vec!["kept"]);
    assert!(s.fields_by_tag("secret").is_empty());
    assert!(s.fields_by_category("numeric").is_empty());
    assert!(!s.has_field("gone"));
    assert!(s.field_category("gone").is_none());
    assert!(s.find_by_name("gone").is_none());
}

#[test]
fn unknown_category_and_tag_give_empty_lists() {
    let decl = RecordDecl::new("R").with_field(FieldDecl::new("a", TypeShape::Bool).tagged("t"));
    let s = compile(&decl, &CategoryCatalog::new()).unwrap();
    assert!(s.fields_by_category("nonexistent-category").is_empty());
    assert!(s.fields_by_tag("nonexistent-tag").is_empty());
}

#[test]
fn non_record_shapes_are_rejected() {
    for shape in [RecordShape::TupleFields, RecordShape::Unit, RecordShape::Enum] {
        let mut decl = RecordDecl::new("E").with_field(FieldDecl::new("a", TypeShape::Bool));
        decl.shape = shape;
        assert_eq!(compile(&decl, &CategoryCatalog::new()).err(), Some(SchemaError::UnsupportedShape));
    }
}

#[test]
fn duplicate_or_empty_field_names_are_rejected() {
    let dup = RecordDecl::new("D")
        .with_field(FieldDecl::new("a", TypeShape::Bool))
        .with_field(FieldDecl::new("a", TypeShape::Bool).skipped());
    assert_eq!(compile(&dup, &CategoryCatalog::new()).err(), Some(SchemaError::UnsupportedShape));
    let empty = RecordDecl::new("E").with_field(FieldDecl::new("", TypeShape::Bool));
    assert_eq!(compile(&empty, &CategoryCatalog::new()).err(), Some(SchemaError::UnsupportedShape));
}

#[test]
fn malformed_annotations_are_rejected() {
    let mut tag = FieldDecl::new("a", TypeShape::Bool).tagged("ok");
    tag.tags.push(AnnotationValue::Int(3));
    let d1 = RecordDecl::new("R").with_field(tag);
    assert_eq!(compile(&d1, &CategoryCatalog::new()).err(), Some(SchemaError::InvalidAnnotation));

    let mut renamed = FieldDecl::new("a", TypeShape::Bool);
    renamed.rename = Some(AnnotationValue::Bool(true));
    let d2 = RecordDecl::new("R").with_field(renamed);
    assert_eq!(compile(&d2, &CategoryCatalog::new()).err(), Some(SchemaError::InvalidAnnotation));

    let mut d3 = RecordDecl::new("R").with_field(FieldDecl::new("a", TypeShape::Bool));
    d3.rename_all = Some(AnnotationValue::Int(1));
    assert_eq!(compile(&d3, &CategoryCatalog::new()).err(), Some(SchemaError::InvalidAnnotation));
}

#[test]
fn shape_error_comes_before_annotation_error() {
    let mut d = RecordDecl::new("R").with_field(FieldDecl::new("a", TypeShape::Bool));
    d.rename_all = Some(AnnotationValue::Int(1));
    d.shape = RecordShape::Enum;
    assert_eq!(compile(&d, &CategoryCatalog::new()).err(), Some(SchemaError::UnsupportedShape));
}

#[test]
fn structural_classification() {
    assert_eq!(classify(TypeShape::Bool), "bool");
    for k in [NumberKind::U8, NumberKind::I128, NumberKind::Usize, NumberKind::F32, NumberKind::F64] {
        assert_eq!(classify(TypeShape::Number(k)), "numeric");
    }
    for k in [TextKind::String, TextKind::Str, TextKind::BoxStr, TextKind::Char] {
        assert_eq!(classify(TypeShape::Text(k)), "text");
    }
    for k in [
        SequenceKind::Vec,
        SequenceKind::Array(5),
        SequenceKind::Slice,
        SequenceKind::HashSet,
        SequenceKind::BTreeSet,
    ] {
        assert_eq!(classify(TypeShape::Sequence(k, Box::new(TypeShape::Bool))), "collection");
    }
    let map = TypeShape::Mapping(
        MapKind::BTreeMap,
        Box::new(TypeShape::Text(TextKind::String)),
        Box::new(TypeShape::Bool),
    );
    assert_eq!(classify(map), "collection");
    let opt_vec = TypeShape::Optional(Box::new(TypeShape::Sequence(
        SequenceKind::Vec,
        Box::new(TypeShape::Number(NumberKind::U8)),
    )));
    assert_eq!(classify(opt_vec), "optional");
    assert_eq!(classify(TypeShape::Named("Decimal".to_string())), "unknown");
}

#[test]
fn custom_categories() {
    let mut catalog = CategoryCatalog::new();
    assert_eq!(catalog.register("money"), Ok(6));
    assert_eq!(catalog.register("binary"), Ok(7));
    assert_eq!(catalog.register("money"), Ok(6));
    assert_eq!(catalog.register("numeric"), Err(CatalogError::DuplicateCategory));
    assert!(catalog.is_registered("money"));
    assert!(catalog.is_registered("unknown"));
    assert!(!catalog.is_registered("cents"));

    assert_eq!(catalog.bind("Decimal", "money"), Ok(()));
    assert_eq!(catalog.bind("Cents", "money"), Ok(()));
    assert_eq!(catalog.bind("Bytes", "binary"), Ok(()));
    assert_eq!(catalog.bind("Decimal", "money"), Ok(()));
    assert_eq!(catalog.bind("Decimal", "binary"), Err(CatalogError::ConflictingBinding));
    assert_eq!(catalog.bind("Other", "cents"), Err(CatalogError::UnknownCategory));
    assert_eq!(catalog.resolve(&TypeShape::Named("Decimal".to_string())), "money");
    assert_eq!(catalog.resolve(&TypeShape::Named("Cents".to_string())), "money");
    assert_eq!(catalog.resolve(&TypeShape::Named("Bytes".to_string())), "binary");
    assert_eq!(catalog.resolve(&TypeShape::Named("Other".to_string())), "unknown");

    let decl = RecordDecl::new("Account")
        .with_field(FieldDecl::new("balance", TypeShape::Named("Decimal".to_string())))
        .with_field(FieldDecl::new("fee", TypeShape::Named("Cents".to_string())))
        .with_field(FieldDecl::new("owner", TypeShape::Text(TextKind::String)));
    let s = compile(&decl, &catalog).unwrap();
    assert_eq!(s.fields_by_category("money"), vec!["balance", "fee"]);
    assert_eq!(s.field_category("balance").as_deref(), Some("money"));
}

#[test]
fn user_types_in_builtin_categories() {
    let mut catalog = CategoryCatalog::new();
    assert_eq!(catalog.bind("Money", "numeric"), Ok(()));
    assert_eq!(catalog.bind("Email", "text"), Ok(()));
    let decl = RecordDecl::new("Invoice")
        .with_field(FieldDecl::new("amount", TypeShape::Named("Money".to_string())))
        .with_field(FieldDecl::new("contact", TypeShape::Named("Email".to_string())))
        .with_field(FieldDecl::new("count", TypeShape::Number(NumberKind::U32)));
    let s = compile(&decl, &catalog).unwrap();
    assert_eq!(s.fields_by_category("numeric"), vec!["amount", "count"]);
    assert_eq!(s.fields_by_category("text"), vec!["contact"]);
    assert_eq!(s.field_category("amount").as_deref(), Some("numeric"));
}

#[test]
fn type_level_categories() {
    assert_eq!(Numeric::name(), "numeric");
    assert_eq!(Text::name(), "text");
    assert_eq!(Bool::name(), "bool");
    assert_eq!(Optional::name(), "optional");
    assert_eq!(Collection::name(), "collection");
    assert_eq!(Unknown::name(), "unknown");
    assert_eq!(category_of::<u64>(), "numeric");
    assert_eq!(category_of::<&str>(), "text");
    assert_eq!(category_of::<Box<str>>(), "text");
    assert_eq!(category_of::<char>(), "text");
    assert_eq!(category_of::<bool>(), "bool");
    assert_eq!(category_of::<Option<Vec<u8>>>(), "optional");
    assert_eq!(category_of::<[i32; 5]>(), "collection");
    assert_eq!(category_of::<&[i32]>(), "collection");
    assert_eq!(category_of::<HashSet<String>>(), "collection");
    assert_eq!(category_of::<BTreeSet<i32>>(), "collection");
    assert_eq!(category_of::<HashMap<String, i32>>(), "collection");
    assert_eq!(category_of::<BTreeMap<String, i32>>(), "collection");
}

#[test]
fn case_rules() {
    assert_eq!(parse_case_rule("camelCase"), Some(CaseRule::Camel));
    assert_eq!(parse_case_rule("snake_case"), Some(CaseRule::Snake));
    assert_eq!(parse_case_rule("PascalCase"), Some(CaseRule::Pascal));
    assert_eq!(parse_case_rule("SCREAMING_SNAKE_CASE"), Some(CaseRule::ScreamingSnake));
    assert_eq!(parse_case_rule("kebab-case"), Some(CaseRule::Kebab));
    assert_eq!(parse_case_rule("lowercase"), None);
    assert_eq!(serialized_name("user_id", None, Some(CaseRule::Camel)), "userId");
    assert_eq!(serialized_name("user_id", None, Some(CaseRule::ScreamingSnake)), "USER_ID");
    assert_eq!(serialized_name("user_id", Some("uid"), Some(CaseRule::Camel)), "uid");
    assert_eq!(serialized_name("user_id", None, None), "user_id");
}
