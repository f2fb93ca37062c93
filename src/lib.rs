//! Structured, queryable metadata about the fields of a record type.
//!
//! A record declaration is compiled once into an immutable [`CompiledSchema`];
//! queries over it never fail and never mutate it.

pub mod catalog;
pub mod categories;
pub mod field_info;
pub mod field_meta;
pub mod laws;
pub mod naming;
pub mod query;
pub mod schema;
pub mod visitor;

pub use catalog::{CatalogError, CategoryCatalog, Binding, CatalogView, CategoryId, MapKind, NumberKind, SequenceKind, TextKind, TypeShape, BUILTIN_COUNT};
pub use categories::{category_of, Bool, Categorized, Collection, Numeric, Optional, Text, TypeCategory, Unknown};
pub use field_info::{tags_contain, FieldCount, FieldInfo, HListVisitor};
pub use field_meta::{FieldMeta, FieldMetaView};
pub use visitor::{CollectNames, CollectSerializedNames, FieldVisitor, FilterByCategory, FilterByTag, GetFieldCategory, HasField, VisitFields};
pub use query::{FieldKinds, FieldKindsExt, FieldKindsInfo};
pub use schema::{compile, AnnotationValue, CompiledSchema, FieldDecl, RecordDecl, RecordShape, SchemaError};
pub use naming::{const_str_eq, parse_case_rule, serialized_name, CaseRule};
pub use laws::{builtin_group, builtin_groups, lemma_builtin_categories_partition, lemma_builtin_groups_count_names, lemma_categories_registered, lemma_compile_deterministic, lemma_count_matches_names, lemma_every_name_found, lemma_names_equal_without_rename, lemma_names_unique};
