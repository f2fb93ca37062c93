use crate::field_meta::{metas_view, strings_view, FieldMeta, FieldMetaView};
use crate::naming::const_str_eq;
use crate::schema::{category_pred, spec_names, spec_serialized_names, tag_pred};
use crate::visitor::{category_found, opt_string_view, VisitFields};
use vstd::prelude::*;
use vstd::std_specs::iter::IteratorSpec;

verus! {

/// Holds of the fields of one declared name.
pub open spec fn name_pred(n: Seq<char>) -> spec_fn(FieldMetaView) -> bool {
    |f: FieldMetaView| f.name == n
}

/// Holds of the fields of one serialized name.
pub open spec fn serialized_pred(n: Seq<char>) -> spec_fn(FieldMetaView) -> bool {
    |f: FieldMetaView| f.serialized_name == n
}

/// Position `i` holds the first field that satisfies `p`.
pub open spec fn is_first(fs: Seq<FieldMetaView>, i: int, p: spec_fn(FieldMetaView) -> bool) -> bool {
    &&& 0 <= i < fs.len()
    &&& p(fs[i])
    &&& forall|j: int| 0 <= j < i ==> !p(#[trigger] fs[j])
}

/// The result of a first-match lookup: the first field that satisfies `p`,
/// or nothing when none does.
pub open spec fn found_first(
    fs: Seq<FieldMetaView>,
    p: spec_fn(FieldMetaView) -> bool,
    r: Option<FieldMetaView>,
) -> bool {
    match r {
        Some(f) => exists|i: int| is_first(fs, i, p) && fs[i] == f,
        None => forall|i: int| 0 <= i < fs.len() ==> !p(#[trigger] fs[i]),
    }
}

/// The view of an optional reference to a field.
pub open spec fn opt_meta_view(r: Option<&FieldMeta>) -> Option<FieldMetaView> {
    match r {
        Some(f) => Some(f@),
        None => None,
    }
}

/// The views of a sequence of references to fields.
pub open spec fn refs_view(v: Seq<&FieldMeta>) -> Seq<FieldMetaView> {
    v.map_values(|f: &FieldMeta| f@)
}

/// Read-only queries over a metadata table. None of them fails: a name,
/// category or tag that no field has gives an empty or absent result.
pub trait FieldKindsExt: VisitFields {
    /// The declared names, in declaration order.
    fn field_names(&self) -> (r: Vec<String>)
        ensures
            strings_view(r@) == spec_names(self.spec_fields()),
    {
        let fields = self.field_meta();
        let mut out: Vec<String> = Vec::new();
        let mut i: usize = 0;
        while i < fields.len()
            invariant
                i <= fields@.len(),
                metas_view(fields@) == self.spec_fields(),
                strings_view(out@) == spec_names(self.spec_fields().take(i as int)),
            decreases fields@.len() - i,
        {
            let ghost before = out@;
            out.push(fields[i].name.clone());
            assert(strings_view(out@) == strings_view(before).push(fields@[i as int].name@));
            assert(self.spec_fields().take(i + 1) == self.spec_fields().take(i as int).push(
                fields@[i as int]@,
            ));
            i = i + 1;
        }
        assert(self.spec_fields().take(fields@.len() as int) == self.spec_fields());
        out
    }

    /// The serialized names, in declaration order.
    fn serialized_names(&self) -> (r: Vec<String>)
        ensures
            strings_view(r@) == spec_serialized_names(self.spec_fields()),
    {
        let fields = self.field_meta();
        let mut out: Vec<String> = Vec::new();
        let mut i: usize = 0;
        while i < fields.len()
            invariant
                i <= fields@.len(),
                metas_view(fields@) == self.spec_fields(),
                strings_view(out@) == spec_serialized_names(self.spec_fields().take(i as int)),
            decreases fields@.len() - i,
        {
            let ghost before = out@;
            out.push(fields[i].serialized_name.clone());
            assert(strings_view(out@) == strings_view(before).push(
                fields@[i as int].serialized_name@,
            ));
            assert(self.spec_fields().take(i + 1) == self.spec_fields().take(i as int).push(
                fields@[i as int]@,
            ));
            i = i + 1;
        }
        assert(self.spec_fields().take(fields@.len() as int) == self.spec_fields());
        out
    }

    /// The declared names, in declaration order, one at a time.
    fn field_names_iter(&self) -> (r: std::vec::IntoIter<String>)
        ensures
            strings_view(r.remaining()) == spec_names(self.spec_fields()),
    {
        broadcast use vstd::std_specs::vec::axiom_spec_into_iter;

        self.field_names().into_iter()
    }

    /// The serialized names, in declaration order, one at a time.
    fn serialized_names_iter(&self) -> (r: std::vec::IntoIter<String>)
        ensures
            strings_view(r.remaining()) == spec_serialized_names(self.spec_fields()),
    {
        broadcast use vstd::std_specs::vec::axiom_spec_into_iter;

        self.serialized_names().into_iter()
    }

    /// The fields of a category, in declaration order.
    fn filter_by_category(&self, category: &str) -> (r: Vec<&FieldMeta>)
        ensures
            refs_view(r@) == self.spec_fields().filter(category_pred(category@)),
    {
        let fields = self.field_meta();
        let ghost fs = self.spec_fields();
        let mut out: Vec<&FieldMeta> = Vec::new();
        let mut i: usize = 0;
        while i < fields.len()
            invariant
                i <= fields@.len(),
                metas_view(fields@) == fs,
                fs == self.spec_fields(),
                refs_view(out@) == fs.take(i as int).filter(category_pred(category@)),
            decreases fields@.len() - i,
        {
            proof {
                reveal(Seq::filter);
            }
            assert(fs.take(i + 1).drop_last() == fs.take(i as int));
            assert(fs.take(i + 1).last() == fields@[i as int]@);
            let ghost before = out@;
            if fields[i].has_category(category) {
                out.push(&fields[i]);
                assert(refs_view(out@) == refs_view(before).push(fields@[i as int]@));
            }
            i = i + 1;
        }
        assert(fs.take(fields@.len() as int) == fs);
        out
    }

    /// The fields that carry a tag, in declaration order.
    fn filter_by_tag(&self, tag: &str) -> (r: Vec<&FieldMeta>)
        ensures
            refs_view(r@) == self.spec_fields().filter(tag_pred(tag@)),
    {
        let fields = self.field_meta();
        let ghost fs = self.spec_fields();
        let mut out: Vec<&FieldMeta> = Vec::new();
        let mut i: usize = 0;
        while i < fields.len()
            invariant
                i <= fields@.len(),
                metas_view(fields@) == fs,
                fs == self.spec_fields(),
                refs_view(out@) == fs.take(i as int).filter(tag_pred(tag@)),
            decreases fields@.len() - i,
        {
            proof {
                reveal(Seq::filter);
            }
            assert(fs.take(i + 1).drop_last() == fs.take(i as int));
            assert(fs.take(i + 1).last() == fields@[i as int]@);
            let ghost before = out@;
            if fields[i].has_tag(tag) {
                out.push(&fields[i]);
                assert(refs_view(out@) == refs_view(before).push(fields@[i as int]@));
            }
            i = i + 1;
        }
        assert(fs.take(fields@.len() as int) == fs);
        out
    }

    /// The declared names of the fields of a category, in declaration order.
    fn fields_by_category(&self, category: &str) -> (r: Vec<String>)
        ensures
            strings_view(r@) == spec_names(self.spec_fields().filter(category_pred(category@))),
    {
        let found = self.filter_by_category(category);
        names_of(&found)
    }

    /// The declared names of the fields that carry a tag, in declaration order.
    fn fields_by_tag(&self, tag: &str) -> (r: Vec<String>)
        ensures
            strings_view(r@) == spec_names(self.spec_fields().filter(tag_pred(tag@))),
    {
        let found = self.filter_by_tag(tag);
        names_of(&found)
    }

    /// The first field of a declared name.
    fn find_by_name(&self, name: &str) -> (r: Option<&FieldMeta>)
        ensures
            found_first(self.spec_fields(), name_pred(name@), opt_meta_view(r)),
    {
        let fields = self.field_meta();
        let ghost fs = self.spec_fields();
        let mut i: usize = 0;
        while i < fields.len()
            invariant
                i <= fields@.len(),
                metas_view(fields@) == fs,
                fs == self.spec_fields(),
                forall|j: int| 0 <= j < i ==> !name_pred(name@)(#[trigger] fs[j]),
            decreases fields@.len() - i,
        {
            if const_str_eq(fields[i].name.as_str(), name) {
                assert(is_first(fs, i as int, name_pred(name@)));
                return Some(&fields[i]);
            }
            i = i + 1;
        }
        None
    }

    /// The first field of a serialized name.
    fn find_by_serialized_name(&self, name: &str) -> (r: Option<&FieldMeta>)
        ensures
            found_first(self.spec_fields(), serialized_pred(name@), opt_meta_view(r)),
    {
        let fields = self.field_meta();
        let ghost fs = self.spec_fields();
        let mut i: usize = 0;
        while i < fields.len()
            invariant
                i <= fields@.len(),
                metas_view(fields@) == fs,
                fs == self.spec_fields(),
                forall|j: int| 0 <= j < i ==> !serialized_pred(name@)(#[trigger] fs[j]),
            decreases fields@.len() - i,
        {
            if const_str_eq(fields[i].serialized_name.as_str(), name) {
                assert(is_first(fs, i as int, serialized_pred(name@)));
                return Some(&fields[i]);
            }
            i = i + 1;
        }
        None
    }

    /// Whether a field of this declared name exists.
    fn has_field(&self, name: &str) -> (r: bool)
        ensures
            r == spec_names(self.spec_fields()).contains(name@),
    {
        let found = self.find_by_name(name);
        let ghost fs = self.spec_fields();
        proof {
            if spec_names(fs).contains(name@) {
                let k = choose|k: int| 0 <= k < spec_names(fs).len() && spec_names(fs)[k] == name@;
                assert(name_pred(name@)(fs[k]));
            }
            if let Some(f) = found {
                let i = choose|i: int| is_first(fs, i, name_pred(name@)) && fs[i] == f@;
                assert(spec_names(fs)[i] == name@);
            }
        }
        found.is_some()
    }

    /// The category of the field of this declared name.
    fn field_category(&self, name: &str) -> (r: Option<String>)
        ensures
            category_found(self.spec_fields(), name@, opt_string_view(r)),
    {
        match self.find_by_name(name) {
            Some(f) => Some(f.category.clone()),
            None => None,
        }
    }
}

/// The declared names of a sequence of fields.
fn names_of(found: &Vec<&FieldMeta>) -> (r: Vec<String>)
    ensures
        strings_view(r@) == spec_names(refs_view(found@)),
{
    let mut out: Vec<String> = Vec::new();
    let mut i: usize = 0;
    while i < found.len()
        invariant
            i <= found@.len(),
            strings_view(out@) == spec_names(refs_view(found@).take(i as int)),
        decreases found@.len() - i,
    {
        let ghost before = out@;
        out.push(found[i].name.clone());
        assert(strings_view(out@) == strings_view(before).push(found@[i as int].name@));
        assert(refs_view(found@).take(i + 1) == refs_view(found@).take(i as int).push(
            found@[i as int]@,
        ));
        i = i + 1;
    }
    assert(refs_view(found@).take(found@.len() as int) == refs_view(found@));
    out
}

/// The field count of a metadata table.
pub trait FieldKinds: VisitFields {
    /// The number of fields that were not skipped.
    fn field_count(&self) -> (r: usize)
        ensures
            r == self.spec_fields().len(),
    {
        self.field_meta().len()
    }
}

/// Lookups by name over a metadata table.
pub trait FieldKindsInfo: FieldKindsExt {
    /// The first field of a declared name.
    fn field(&self, name: &str) -> (r: Option<&FieldMeta>)
        ensures
            found_first(self.spec_fields(), name_pred(name@), opt_meta_view(r)),
    {
        self.find_by_name(name)
    }

    /// The first field of a serialized name.
    fn field_by_serialized(&self, name: &str) -> (r: Option<&FieldMeta>)
        ensures
            found_first(self.spec_fields(), serialized_pred(name@), opt_meta_view(r)),
    {
        self.find_by_serialized_name(name)
    }

    /// All fields, in declaration order.
    fn fields(&self) -> (r: &[FieldMeta])
        ensures
            metas_view(r@) == self.spec_fields(),
    {
        self.field_meta()
    }

    /// The fields that carry a tag, in declaration order.
    fn fields_with_tag(&self, tag: &str) -> (r: Vec<&FieldMeta>)
        ensures
            refs_view(r@) == self.spec_fields().filter(tag_pred(tag@)),
    {
        self.filter_by_tag(tag)
    }
}

} // verus!
