use crate::field_meta::{metas_view, strings_view, FieldMeta, FieldMetaView};
use crate::schema::{category_pred, spec_names, spec_serialized_names, tag_pred};
use crate::naming::const_str_eq;
use crate::query::{is_first, name_pred};
use vstd::prelude::*;

verus! {

/// A callback run once per field, in declaration order.
///
/// Its view is what it has gathered so far; `step` says how one field
/// changes it.
///
/// The callback receives the field's metadata as a value, not the field's
/// static type: a schema here is compiled at run time from a declaration,
/// so there is no per-field type to dispatch on. Code that needs a field's
/// type at compile time uses a marker type that implements `FieldInfo`.
/// What a visitor gathers is what the queries of `FieldKindsExt` return.
pub trait FieldVisitor: View {
    spec fn step(state: Self::V, field: FieldMetaView) -> Self::V;

    fn visit(&mut self, field: &FieldMeta)
        ensures
            final(self)@ == Self::step(old(self)@, field@),
    ;
}

/// The state of a visitor after it has seen each field in order.
pub open spec fn fold_visit<V: FieldVisitor>(state: V::V, fs: Seq<FieldMetaView>) -> V::V
    decreases fs.len(),
{
    if fs.len() == 0 {
        state
    } else {
        V::step(fold_visit::<V>(state, fs.drop_last()), fs.last())
    }
}

/// A source of field metadata in declaration order.
pub trait VisitFields {
    spec fn spec_fields(&self) -> Seq<FieldMetaView>;

    /// The full ordered metadata table.
    fn field_meta(&self) -> (r: &[FieldMeta])
        ensures
            metas_view(r@) == self.spec_fields(),
    ;

    /// Runs the visitor on every field, in declaration order.
    fn visit_fields<V: FieldVisitor>(&self, visitor: &mut V)
        ensures
            final(visitor)@ == fold_visit::<V>(old(visitor)@, self.spec_fields()),
    {
        let fields = self.field_meta();
        let ghost fs = self.spec_fields();
        let mut i: usize = 0;
        while i < fields.len()
            invariant
                i <= fields@.len(),
                metas_view(fields@) == fs,
                fs == self.spec_fields(),
                visitor@ == fold_visit::<V>(old(visitor)@, fs.take(i as int)),
            decreases fields@.len() - i,
        {
            assert(fs.take(i + 1).drop_last() == fs.take(i as int));
            assert(fs.take(i + 1).last() == fields@[i as int]@);
            visitor.visit(&fields[i]);
            i = i + 1;
        }
        assert(fs.take(fs.len() as int) == fs);
    }
}

/// Gathers the declared names.
pub struct CollectNames(pub Vec<String>);

impl View for CollectNames {
    type V = Seq<Seq<char>>;

    open spec fn view(&self) -> Seq<Seq<char>> {
        strings_view(self.0@)
    }
}

impl FieldVisitor for CollectNames {
    open spec fn step(state: Seq<Seq<char>>, field: FieldMetaView) -> Seq<Seq<char>> {
        state.push(field.name)
    }

    fn visit(&mut self, field: &FieldMeta) {
        self.0.push(field.name.clone());
        assert(strings_view(self.0@) == strings_view(old(self).0@).push(field.name@));
    }
}

proof fn lemma_fold_names(fs: Seq<FieldMetaView>)
    ensures
        fold_visit::<CollectNames>(Seq::empty(), fs) == spec_names(fs),
    decreases fs.len(),
{
    if fs.len() > 0 {
        lemma_fold_names(fs.drop_last());
        assert(spec_names(fs) == spec_names(fs.drop_last()).push(fs.last().name));
    }
}

impl CollectNames {
    pub fn new() -> (r: Self)
        ensures
            r@ == Seq::<Seq<char>>::empty(),
    {
        CollectNames(Vec::new())
    }

    /// The declared names of every field of the source, in order.
    pub fn collect<T: VisitFields>(source: &T) -> (r: Vec<String>)
        ensures
            strings_view(r@) == spec_names(source.spec_fields()),
    {
        let mut v = Self::new();
        source.visit_fields(&mut v);
        proof {
            lemma_fold_names(source.spec_fields());
        }
        v.0
    }
}

impl Default for CollectNames {
    fn default() -> (r: Self)
        ensures
            r@ == Seq::<Seq<char>>::empty(),
    {
        Self::new()
    }
}

/// Gathers the serialized names.
pub struct CollectSerializedNames(pub Vec<String>);

impl View for CollectSerializedNames {
    type V = Seq<Seq<char>>;

    open spec fn view(&self) -> Seq<Seq<char>> {
        strings_view(self.0@)
    }
}

impl FieldVisitor for CollectSerializedNames {
    open spec fn step(state: Seq<Seq<char>>, field: FieldMetaView) -> Seq<Seq<char>> {
        state.push(field.serialized_name)
    }

    fn visit(&mut self, field: &FieldMeta) {
        self.0.push(field.serialized_name.clone());
        assert(strings_view(self.0@) == strings_view(old(self).0@).push(field.serialized_name@));
    }
}

proof fn lemma_fold_serialized_names(fs: Seq<FieldMetaView>)
    ensures
        fold_visit::<CollectSerializedNames>(Seq::empty(), fs) == spec_serialized_names(fs),
    decreases fs.len(),
{
    if fs.len() > 0 {
        lemma_fold_serialized_names(fs.drop_last());
        assert(spec_serialized_names(fs) == spec_serialized_names(fs.drop_last()).push(
            fs.last().serialized_name,
        ));
    }
}

impl CollectSerializedNames {
    pub fn new() -> (r: Self)
        ensures
            r@ == Seq::<Seq<char>>::empty(),
    {
        CollectSerializedNames(Vec::new())
    }

    /// The serialized names of every field of the source, in order.
    pub fn collect<T: VisitFields>(source: &T) -> (r: Vec<String>)
        ensures
            strings_view(r@) == spec_serialized_names(source.spec_fields()),
    {
        let mut v = Self::new();
        source.visit_fields(&mut v);
        proof {
            lemma_fold_serialized_names(source.spec_fields());
        }
        v.0
    }
}

impl Default for CollectSerializedNames {
    fn default() -> (r: Self)
        ensures
            r@ == Seq::<Seq<char>>::empty(),
    {
        Self::new()
    }
}

/// Gathers the names of the fields of one category.
pub struct FilterByCategory<'a> {
    pub category: &'a str,
    pub names: Vec<String>,
}

impl<'a> View for FilterByCategory<'a> {
    type V = (Seq<char>, Seq<Seq<char>>);

    open spec fn view(&self) -> (Seq<char>, Seq<Seq<char>>) {
        (self.category@, strings_view(self.names@))
    }
}

impl<'a> FieldVisitor for FilterByCategory<'a> {
    open spec fn step(state: (Seq<char>, Seq<Seq<char>>), field: FieldMetaView) -> (
        Seq<char>,
        Seq<Seq<char>>,
    ) {
        if field.category == state.0 {
            (state.0, state.1.push(field.name))
        } else {
            state
        }
    }

    fn visit(&mut self, field: &FieldMeta) {
        if field.has_category(self.category) {
            self.names.push(field.name.clone());
            assert(strings_view(self.names@) == strings_view(old(self).names@).push(field.name@));
        }
    }
}

proof fn lemma_fold_by_category(c: Seq<char>, fs: Seq<FieldMetaView>)
    ensures
        fold_visit::<FilterByCategory>((c, Seq::empty()), fs) == (c, spec_names(
            fs.filter(category_pred(c)),
        )),
    decreases fs.len(),
{
    if fs.len() > 0 {
        reveal(Seq::filter);
        lemma_fold_by_category(c, fs.drop_last());
        let before = fs.drop_last().filter(category_pred(c));
        assert(spec_names(before.push(fs.last())) == spec_names(before).push(fs.last().name));
    }
}

impl<'a> FilterByCategory<'a> {
    pub fn new(category: &'a str) -> (r: Self)
        ensures
            r@ == (category@, Seq::<Seq<char>>::empty()),
    {
        FilterByCategory { category, names: Vec::new() }
    }

    /// The declared names of the source's fields of the category, in order.
    pub fn collect<T: VisitFields>(source: &T, category: &'a str) -> (r: Vec<String>)
        ensures
            strings_view(r@) == spec_names(source.spec_fields().filter(category_pred(category@))),
    {
        let mut v = Self::new(category);
        source.visit_fields(&mut v);
        proof {
            lemma_fold_by_category(category@, source.spec_fields());
        }
        v.names
    }
}

/// Gathers the names of the fields that carry one tag.
pub struct FilterByTag<'a> {
    pub tag: &'a str,
    pub names: Vec<String>,
}

impl<'a> View for FilterByTag<'a> {
    type V = (Seq<char>, Seq<Seq<char>>);

    open spec fn view(&self) -> (Seq<char>, Seq<Seq<char>>) {
        (self.tag@, strings_view(self.names@))
    }
}

impl<'a> FieldVisitor for FilterByTag<'a> {
    open spec fn step(state: (Seq<char>, Seq<Seq<char>>), field: FieldMetaView) -> (
        Seq<char>,
        Seq<Seq<char>>,
    ) {
        if field.tags.contains(state.0) {
            (state.0, state.1.push(field.name))
        } else {
            state
        }
    }

    fn visit(&mut self, field: &FieldMeta) {
        if field.has_tag(self.tag) {
            self.names.push(field.name.clone());
            assert(strings_view(self.names@) == strings_view(old(self).names@).push(field.name@));
        }
    }
}

proof fn lemma_fold_by_tag(t: Seq<char>, fs: Seq<FieldMetaView>)
    ensures
        fold_visit::<FilterByTag>((t, Seq::empty()), fs) == (t, spec_names(fs.filter(tag_pred(t)))),
    decreases fs.len(),
{
    if fs.len() > 0 {
        reveal(Seq::filter);
        lemma_fold_by_tag(t, fs.drop_last());
        let before = fs.drop_last().filter(tag_pred(t));
        assert(spec_names(before.push(fs.last())) == spec_names(before).push(fs.last().name));
    }
}

impl<'a> FilterByTag<'a> {
    pub fn new(tag: &'a str) -> (r: Self)
        ensures
            r@ == (tag@, Seq::<Seq<char>>::empty()),
    {
        FilterByTag { tag, names: Vec::new() }
    }

    /// The declared names of the source's fields that carry the tag, in order.
    pub fn collect<T: VisitFields>(source: &T, tag: &'a str) -> (r: Vec<String>)
        ensures
            strings_view(r@) == spec_names(source.spec_fields().filter(tag_pred(tag@))),
    {
        let mut v = Self::new(tag);
        source.visit_fields(&mut v);
        proof {
            lemma_fold_by_tag(tag@, source.spec_fields());
        }
        v.names
    }
}

/// Records whether a field of one name exists.
pub struct HasField<'a> {
    pub name: &'a str,
    pub found: bool,
}

impl<'a> View for HasField<'a> {
    type V = (Seq<char>, bool);

    open spec fn view(&self) -> (Seq<char>, bool) {
        (self.name@, self.found)
    }
}

impl<'a> FieldVisitor for HasField<'a> {
    open spec fn step(state: (Seq<char>, bool), field: FieldMetaView) -> (Seq<char>, bool) {
        (state.0, state.1 || field.name == state.0)
    }

    fn visit(&mut self, field: &FieldMeta) {
        if const_str_eq(field.name.as_str(), self.name) {
            self.found = true;
        }
    }
}

proof fn lemma_fold_has_field(n: Seq<char>, fs: Seq<FieldMetaView>)
    ensures
        fold_visit::<HasField>((n, false), fs) == (n, spec_names(fs).contains(n)),
    decreases fs.len(),
{
    if fs.len() > 0 {
        lemma_fold_has_field(n, fs.drop_last());
        let before = spec_names(fs.drop_last());
        assert(spec_names(fs) == before.push(fs.last().name));
        if before.contains(n) {
            let k = choose|k: int| 0 <= k < before.len() && before[k] == n;
            assert(spec_names(fs)[k] == n);
        }
        if spec_names(fs).contains(n) {
            let k = choose|k: int| 0 <= k < spec_names(fs).len() && spec_names(fs)[k] == n;
            if k < before.len() {
                assert(before[k] == n);
            }
        }
        if fs.last().name == n {
            assert(spec_names(fs)[fs.len() - 1] == n);
        }
    } else {
        assert(!spec_names(fs).contains(n));
    }
}

impl<'a> HasField<'a> {
    pub fn new(name: &'a str) -> (r: Self)
        ensures
            r@ == (name@, false),
    {
        HasField { name, found: false }
    }

    /// Whether the source has a field of this declared name.
    pub fn check<T: VisitFields>(source: &T, name: &'a str) -> (r: bool)
        ensures
            r == spec_names(source.spec_fields()).contains(name@),
    {
        let mut v = Self::new(name);
        source.visit_fields(&mut v);
        proof {
            lemma_fold_has_field(name@, source.spec_fields());
        }
        v.found
    }
}

/// Records the category of the first field of one name.
pub struct GetFieldCategory<'a> {
    pub name: &'a str,
    pub category: Option<String>,
}

pub open spec fn opt_string_view(o: Option<String>) -> Option<Seq<char>> {
    match o {
        Some(s) => Some(s@),
        None => None,
    }
}

impl<'a> View for GetFieldCategory<'a> {
    type V = (Seq<char>, Option<Seq<char>>);

    open spec fn view(&self) -> (Seq<char>, Option<Seq<char>>) {
        (self.name@, opt_string_view(self.category))
    }
}

impl<'a> FieldVisitor for GetFieldCategory<'a> {
    open spec fn step(state: (Seq<char>, Option<Seq<char>>), field: FieldMetaView) -> (
        Seq<char>,
        Option<Seq<char>>,
    ) {
        if state.1 is None && field.name == state.0 {
            (state.0, Some(field.category))
        } else {
            state
        }
    }

    fn visit(&mut self, field: &FieldMeta) {
        if self.category.is_none() && const_str_eq(field.name.as_str(), self.name) {
            self.category = Some(field.category.clone());
        }
    }
}

/// The category of the first field of a name, or nothing when no field has it.
pub open spec fn category_found(fs: Seq<FieldMetaView>, n: Seq<char>, r: Option<Seq<char>>) -> bool {
    match r {
        Some(c) => exists|i: int| is_first(fs, i, name_pred(n)) && fs[i].category == c,
        None => forall|i: int| 0 <= i < fs.len() ==> !name_pred(n)(#[trigger] fs[i]),
    }
}

proof fn lemma_fold_first_category(n: Seq<char>, fs: Seq<FieldMetaView>)
    ensures
        fold_visit::<GetFieldCategory>((n, None), fs).0 == n,
        category_found(fs, n, fold_visit::<GetFieldCategory>((n, None), fs).1),
    decreases fs.len(),
{
    if fs.len() > 0 {
        let rest = fs.drop_last();
        let last = fs.len() - 1;
        lemma_fold_first_category(n, rest);
        match fold_visit::<GetFieldCategory>((n, None), rest).1 {
            Some(c) => {
                let i = choose|i: int| is_first(rest, i, name_pred(n)) && rest[i].category == c;
                assert(fs[i] == rest[i]);
                assert forall|j: int| 0 <= j < i implies !name_pred(n)(#[trigger] fs[j]) by {
                    assert(fs[j] == rest[j]);
                }
                assert(is_first(fs, i, name_pred(n)));
            },
            None => {
                assert forall|j: int| 0 <= j < last implies !name_pred(n)(#[trigger] fs[j]) by {
                    assert(fs[j] == rest[j]);
                }
                if fs.last().name == n {
                    assert(is_first(fs, last, name_pred(n)));
                }
            },
        }
    }
}

impl<'a> GetFieldCategory<'a> {
    pub fn new(name: &'a str) -> (r: Self)
        ensures
            r@ == (name@, None::<Seq<char>>),
    {
        GetFieldCategory { name, category: None }
    }

    /// The category of the source's first field of this declared name.
    pub fn get<T: VisitFields>(source: &T, name: &'a str) -> (r: Option<String>)
        ensures
            category_found(source.spec_fields(), name@, opt_string_view(r)),
    {
        let mut v = Self::new(name);
        source.visit_fields(&mut v);
        proof {
            lemma_fold_first_category(name@, source.spec_fields());
        }
        v.category
    }
}

} // verus!
