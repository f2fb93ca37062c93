use crate::catalog::{spec_classify, CategoryCatalog, TypeShape};
use crate::field_meta::{metas_view, FieldMeta, FieldMetaView};
use crate::query::{FieldKinds, FieldKindsExt, FieldKindsInfo};
use crate::laws::lemma_compiled_names_from;
use crate::visitor::VisitFields;
use crate::naming::{parse_case_rule, serialized_name, spec_case_rule, spec_serialized_name, CaseRule};
use vstd::prelude::*;

verus! {

/// The value of one annotation, as the declaring layer hands it over.
#[derive(Debug)]
pub enum AnnotationValue {
    Str(String),
    Int(i64),
    Bool(bool),
}

/// The kind of type construct that a declaration describes.
#[derive(Debug, Clone, Copy, PartialEq, Eq, Structural)]
pub enum RecordShape {
    /// A record with named fields: the one shape that compiles.
    NamedFields,
    /// A record whose fields are known by position only.
    TupleFields,
    /// A record with no field list at all.
    Unit,
    /// An enumeration.
    Enum,
}

/// One declared field with its annotations.
#[derive(Debug)]
pub struct FieldDecl {
    pub name: String,
    pub ty: TypeShape,
    pub rename: Option<AnnotationValue>,
    pub tags: Vec<AnnotationValue>,
    pub skip: bool,
}

/// A record declaration: its shape, its container-wide rule and its fields
/// in source order.
#[derive(Debug)]
pub struct RecordDecl {
    pub name: String,
    pub shape: RecordShape,
    pub rename_all: Option<AnnotationValue>,
    pub fields: Vec<FieldDecl>,
}

impl FieldDecl {
    /// A field with no annotations.
    pub fn new(name: &str, ty: TypeShape) -> (r: Self)
        ensures
            r.name@ == name@,
            r.ty == ty,
            r.rename is None,
            r.tags@.len() == 0,
            !r.skip,
    {
        FieldDecl { name: name.to_owned(), ty, rename: None, tags: Vec::new(), skip: false }
    }

    /// The field with an explicit serialized name.
    pub fn renamed(self, rename: &str) -> (r: Self)
        ensures
            r.rename matches Some(AnnotationValue::Str(s)) && s@ == rename@,
            r.name == self.name,
            r.ty == self.ty,
            r.tags == self.tags,
            r.skip == self.skip,
    {
        FieldDecl { rename: Some(AnnotationValue::Str(rename.to_owned())), ..self }
    }

    /// The field with one more tag.
    pub fn tagged(self, tag: &str) -> (r: Self)
        ensures
            r.tags@.len() == self.tags@.len() + 1,
            forall|k: int| 0 <= k < self.tags@.len() ==> r.tags@[k] == self.tags@[k],
            r.tags@.last() matches AnnotationValue::Str(s) && s@ == tag@,
            r.name == self.name,
            r.ty == self.ty,
            r.rename == self.rename,
            r.skip == self.skip,
    {
        let mut f = self;
        f.tags.push(AnnotationValue::Str(tag.to_owned()));
        f
    }

    /// The field marked to be left out of the schema.
    pub fn skipped(self) -> (r: Self)
        ensures
            r.skip,
            r.name == self.name,
            r.ty == self.ty,
            r.rename == self.rename,
            r.tags == self.tags,
    {
        FieldDecl { skip: true, ..self }
    }
}

impl RecordDecl {
    /// A record with named fields, no container rule and no fields yet.
    pub fn new(name: &str) -> (r: Self)
        ensures
            r.name@ == name@,
            r.shape == RecordShape::NamedFields,
            r.rename_all is None,
            r.fields@.len() == 0,
    {
        RecordDecl {
            name: name.to_owned(),
            shape: RecordShape::NamedFields,
            rename_all: None,
            fields: Vec::new(),
        }
    }

    /// The record with a container-wide case rule, by its name.
    pub fn with_rename_all(self, rule: &str) -> (r: Self)
        ensures
            r.rename_all matches Some(AnnotationValue::Str(s)) && s@ == rule@,
            r.name == self.name,
            r.shape == self.shape,
            r.fields == self.fields,
    {
        RecordDecl { rename_all: Some(AnnotationValue::Str(rule.to_owned())), ..self }
    }

    /// The record with one more field, after the others.
    pub fn with_field(self, field: FieldDecl) -> (r: Self)
        ensures
            r.fields@ == self.fields@.push(field),
            r.name == self.name,
            r.shape == self.shape,
            r.rename_all == self.rename_all,
    {
        let mut d = self;
        d.fields.push(field);
        d
    }
}

/// Why a declaration did not compile.
#[derive(Debug, Clone, Copy, PartialEq, Eq, Structural)]
pub enum SchemaError {
    /// The declaration is not a record whose fields have distinct, non-empty names.
    UnsupportedShape,
    /// An annotation holds a value of the wrong kind.
    InvalidAnnotation,
}

pub open spec fn is_str(v: AnnotationValue) -> bool {
    v matches AnnotationValue::Str(_)
}

/// The text of a string annotation (empty for any other kind).
pub open spec fn annotation_text(v: AnnotationValue) -> Seq<char> {
    match v {
        AnnotationValue::Str(s) => s@,
        _ => Seq::empty(),
    }
}

pub open spec fn spec_shape_ok(d: RecordDecl) -> bool {
    &&& d.shape == RecordShape::NamedFields
    &&& forall|i: int| 0 <= i < d.fields@.len() ==> (#[trigger] d.fields@[i]).name@.len() > 0
    &&& forall|i: int, j: int|
        0 <= i < j < d.fields@.len() ==> (#[trigger] d.fields@[i]).name@ != (#[trigger] d.fields@[j]).name@
}

pub open spec fn spec_field_annotations_ok(f: FieldDecl) -> bool {
    &&& (f.rename matches Some(v) ==> is_str(v))
    &&& forall|k: int| 0 <= k < f.tags@.len() ==> is_str(#[trigger] f.tags@[k])
}

pub open spec fn spec_annotations_ok(d: RecordDecl) -> bool {
    &&& (d.rename_all matches Some(v) ==> is_str(v))
    &&& forall|i: int| 0 <= i < d.fields@.len() ==> spec_field_annotations_ok(#[trigger] d.fields@[i])
}

/// The container rule in force: a known rule name, else none.
pub open spec fn spec_rule(d: RecordDecl) -> Option<CaseRule> {
    match d.rename_all {
        Some(AnnotationValue::Str(s)) => spec_case_rule(s@),
        _ => None,
    }
}

pub open spec fn spec_rename(f: FieldDecl) -> Option<Seq<char>> {
    match f.rename {
        Some(v) => Some(annotation_text(v)),
        None => None,
    }
}

/// The metadata that one kept field compiles to.
pub open spec fn spec_descriptor(
    entries: Seq<(Seq<char>, Seq<char>)>,
    f: FieldDecl,
    rule: Option<CaseRule>,
) -> FieldMetaView {
    FieldMetaView {
        name: f.name@,
        serialized_name: spec_serialized_name(f.name@, spec_rename(f), rule),
        category: spec_classify(entries, f.ty),
        tags: f.tags@.map_values(|v: AnnotationValue| annotation_text(v)),
    }
}

/// The metadata of the fields that are not skipped, in declaration order.
pub open spec fn spec_compile_fields(
    entries: Seq<(Seq<char>, Seq<char>)>,
    fields: Seq<FieldDecl>,
    rule: Option<CaseRule>,
) -> Seq<FieldMetaView>
    decreases fields.len(),
{
    if fields.len() == 0 {
        Seq::empty()
    } else {
        let before = spec_compile_fields(entries, fields.drop_last(), rule);
        if fields.last().skip {
            before
        } else {
            before.push(spec_descriptor(entries, fields.last(), rule))
        }
    }
}

/// What compiling a declaration against a catalog gives.
pub open spec fn spec_compile(d: RecordDecl, entries: Seq<(Seq<char>, Seq<char>)>) -> Result<
    Seq<FieldMetaView>,
    SchemaError,
> {
    if !spec_shape_ok(d) {
        Err(SchemaError::UnsupportedShape)
    } else if !spec_annotations_ok(d) {
        Err(SchemaError::InvalidAnnotation)
    } else {
        Ok(spec_compile_fields(entries, d.fields@, spec_rule(d)))
    }
}

/// The declared names of a sequence of fields.
pub open spec fn spec_names(fs: Seq<FieldMetaView>) -> Seq<Seq<char>> {
    fs.map_values(|f: FieldMetaView| f.name)
}

/// The serialized names of a sequence of fields.
pub open spec fn spec_serialized_names(fs: Seq<FieldMetaView>) -> Seq<Seq<char>> {
    fs.map_values(|f: FieldMetaView| f.serialized_name)
}

/// Holds of the fields of one category.
pub open spec fn category_pred(c: Seq<char>) -> spec_fn(FieldMetaView) -> bool {
    |f: FieldMetaView| f.category == c
}

/// Holds of the fields that carry one tag.
pub open spec fn tag_pred(t: Seq<char>) -> spec_fn(FieldMetaView) -> bool {
    |f: FieldMetaView| f.tags.contains(t)
}

/// The immutable, ordered metadata table of one record type.
pub struct CompiledSchema {
    fields: Vec<FieldMeta>,
}

impl View for CompiledSchema {
    type V = Seq<FieldMetaView>;

    closed spec fn view(&self) -> Seq<FieldMetaView> {
        metas_view(self.fields@)
    }
}

impl CompiledSchema {
    /// No two fields share a declared name.
    #[verifier::type_invariant]
    spec fn names_unique(&self) -> bool {
        spec_names(self@).no_duplicates()
    }
}

impl VisitFields for CompiledSchema {
    open spec fn spec_fields(&self) -> Seq<FieldMetaView> {
        self@
    }

    fn field_meta(&self) -> (r: &[FieldMeta]) {
        self.fields.as_slice()
    }
}

impl FieldKindsExt for CompiledSchema {

}

impl FieldKinds for CompiledSchema {

}

impl FieldKindsInfo for CompiledSchema {

}

/// The view of a compile result.
pub open spec fn result_view(r: Result<CompiledSchema, SchemaError>) -> Result<
    Seq<FieldMetaView>,
    SchemaError,
> {
    match r {
        Ok(s) => Ok(s@),
        Err(e) => Err(e),
    }
}

fn shape_ok(decl: &RecordDecl) -> (r: bool)
    ensures
        r == spec_shape_ok(*decl),
{
    if decl.shape != RecordShape::NamedFields {
        return false;
    }
    let n = decl.fields.len();
    let mut i: usize = 0;
    while i < n
        invariant
            n == decl.fields@.len(),
            i <= n,
            decl.shape == RecordShape::NamedFields,
            forall|a: int| 0 <= a < i ==> (#[trigger] decl.fields@[a]).name@.len() > 0,
            forall|a: int, b: int|
                0 <= a < b < n && a < i ==> (#[trigger] decl.fields@[a]).name@ != (
                #[trigger] decl.fields@[b]).name@,
        decreases n - i,
    {
        if decl.fields[i].name.as_str().unicode_len() == 0 {
            return false;
        }
        let mut j: usize = i + 1;
        while j < n
            invariant
                n == decl.fields@.len(),
                i < n,
                i < j <= n,
                forall|b: int| i < b < j ==> decl.fields@[i as int].name@ != (
                #[trigger] decl.fields@[b]).name@,
            decreases n - j,
        {
            if decl.fields[i].name == decl.fields[j].name {
                return false;
            }
            j = j + 1;
        }
        i = i + 1;
    }
    true
}

fn field_annotations_ok(f: &FieldDecl) -> (r: bool)
    ensures
        r == spec_field_annotations_ok(*f),
{
    match &f.rename {
        Some(AnnotationValue::Str(_)) => {},
        Some(_) => return false,
        None => {},
    }
    let mut k: usize = 0;
    while k < f.tags.len()
        invariant
            k <= f.tags@.len(),
            f.rename matches Some(v) ==> is_str(v),
            forall|a: int| 0 <= a < k ==> is_str(#[trigger] f.tags@[a]),
        decreases f.tags.len() - k,
    {
        match &f.tags[k] {
            AnnotationValue::Str(_) => {},
            _ => return false,
        }
        k = k + 1;
    }
    true
}

fn annotations_ok(decl: &RecordDecl) -> (r: bool)
    ensures
        r == spec_annotations_ok(*decl),
{
    match &decl.rename_all {
        Some(AnnotationValue::Str(_)) => {},
        Some(_) => return false,
        None => {},
    }
    let mut i: usize = 0;
    while i < decl.fields.len()
        invariant
            i <= decl.fields@.len(),
            decl.rename_all matches Some(v) ==> is_str(v),
            forall|a: int| 0 <= a < i ==> spec_field_annotations_ok(#[trigger] decl.fields@[a]),
        decreases decl.fields.len() - i,
    {
        if !field_annotations_ok(&decl.fields[i]) {
            return false;
        }
        i = i + 1;
    }
    true
}

fn rule_of(decl: &RecordDecl) -> (r: Option<CaseRule>)
    ensures
        r == spec_rule(*decl),
{
    match &decl.rename_all {
        Some(AnnotationValue::Str(s)) => parse_case_rule(s.as_str()),
        _ => None,
    }
}

/// The metadata of one field whose annotations are well formed.
fn compile_field(catalog: &CategoryCatalog, f: &FieldDecl, rule: Option<CaseRule>) -> (r: FieldMeta)
    requires
        spec_field_annotations_ok(*f),
    ensures
        r@ == spec_descriptor(catalog@.bindings, *f, rule),
{
    let rename: Option<&str> = match &f.rename {
        Some(AnnotationValue::Str(s)) => Some(s.as_str()),
        _ => None,
    };
    let serialized = serialized_name(f.name.as_str(), rename, rule);
    let category = catalog.resolve(&f.ty);
    let mut tags: Vec<String> = Vec::new();
    let mut k: usize = 0;
    while k < f.tags.len()
        invariant
            k <= f.tags@.len(),
            forall|a: int| 0 <= a < f.tags@.len() ==> is_str(#[trigger] f.tags@[a]),
            tags@.len() == k,
            forall|a: int| 0 <= a < k ==> (#[trigger] tags@[a])@ == annotation_text(f.tags@[a]),
        decreases f.tags.len() - k,
    {
        match &f.tags[k] {
            AnnotationValue::Str(s) => tags.push(s.clone()),
            _ => {
                assert(is_str(f.tags@[k as int]));
            },
        }
        k = k + 1;
    }
    let r = FieldMeta { name: f.name.clone(), serialized_name: serialized, category, tags };
    assert(r@.tags == f.tags@.map_values(|v: AnnotationValue| annotation_text(v)));
    r
}

/// Compiles a record declaration into its metadata table.
///
/// Skipped fields contribute nothing. A declaration that is not a record
/// with distinct named fields, or that carries an annotation of the wrong
/// kind, yields no schema.
pub fn compile(decl: &RecordDecl, catalog: &CategoryCatalog) -> (r: Result<
    CompiledSchema,
    SchemaError,
>)
    ensures
        result_view(r) == spec_compile(*decl, catalog@.bindings),
{
    if !shape_ok(decl) {
        return Err(SchemaError::UnsupportedShape);
    }
    if !annotations_ok(decl) {
        return Err(SchemaError::InvalidAnnotation);
    }
    let rule = rule_of(decl);
    let ghost entries = catalog@.bindings;
    let ghost decls = decl.fields@;
    let mut out: Vec<FieldMeta> = Vec::new();
    let mut i: usize = 0;
    while i < decl.fields.len()
        invariant
            i <= decls.len(),
            decls == decl.fields@,
            entries == catalog@.bindings,
            rule == spec_rule(*decl),
            spec_shape_ok(*decl),
            spec_annotations_ok(*decl),
            metas_view(out@) == spec_compile_fields(entries, decls.take(i as int), rule),
        decreases decls.len() - i,
    {
        assert(decls.take(i + 1).drop_last() == decls.take(i as int));
        assert(decls.take(i + 1).last() == decls[i as int]);
        let ghost before = out@;
        if !decl.fields[i].skip {
            let f = compile_field(catalog, &decl.fields[i], rule);
            out.push(f);
            assert(metas_view(out@) == metas_view(before).push(f@));
        }
        i = i + 1;
    }
    assert(decls.take(decls.len() as int) == decls);
    proof {
        lemma_compiled_names_from(entries, decls, rule);
    }
    Ok(CompiledSchema { fields: out })
}

} // verus!
