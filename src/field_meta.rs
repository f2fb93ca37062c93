use crate::naming::const_str_eq;
use vstd::prelude::*;

verus! {

/// The metadata of one field, as its values read in specifications.
pub struct FieldMetaView {
    pub name: Seq<char>,
    pub serialized_name: Seq<char>,
    pub category: Seq<char>,
    pub tags: Seq<Seq<char>>,
}

/// The metadata of one field of a compiled schema.
#[derive(Debug)]
pub struct FieldMeta {
    /// The declared name.
    pub name: String,
    /// The name after rename rules.
    pub serialized_name: String,
    /// The category of the declared type.
    pub category: String,
    /// Free-form tags, in declaration order.
    pub tags: Vec<String>,
}

/// The characters of each string of a sequence.
pub open spec fn strings_view(v: Seq<String>) -> Seq<Seq<char>> {
    v.map_values(|s: String| s@)
}

/// The view of each field of a sequence.
pub open spec fn metas_view(v: Seq<FieldMeta>) -> Seq<FieldMetaView> {
    v.map_values(|f: FieldMeta| f@)
}

impl View for FieldMeta {
    type V = FieldMetaView;

    open spec fn view(&self) -> FieldMetaView {
        FieldMetaView {
            name: self.name@,
            serialized_name: self.serialized_name@,
            category: self.category@,
            tags: strings_view(self.tags@),
        }
    }
}

/// A field passes a filter when each given criterion holds of it.
pub open spec fn spec_matches(
    f: FieldMetaView,
    name: Option<Seq<char>>,
    category: Option<Seq<char>>,
    tag: Option<Seq<char>>,
) -> bool {
    &&& (name matches Some(n) ==> f.name == n)
    &&& (category matches Some(c) ==> f.category == c)
    &&& (tag matches Some(t) ==> f.tags.contains(t))
}

impl FieldMeta {
    /// Whether the field carries the tag.
    pub fn has_tag(&self, tag: &str) -> (r: bool)
        ensures
            r == self@.tags.contains(tag@),
    {
        let mut i: usize = 0;
        while i < self.tags.len()
            invariant
                i <= self.tags@.len(),
                forall|j: int| 0 <= j < i ==> self.tags@[j]@ != tag@,
            decreases self.tags.len() - i,
        {
            if const_str_eq(self.tags[i].as_str(), tag) {
                assert(self@.tags[i as int] == tag@);
                return true;
            }
            i = i + 1;
        }
        assert(!self@.tags.contains(tag@)) by {
            if self@.tags.contains(tag@) {
                let k = choose|k: int| 0 <= k < self@.tags.len() && self@.tags[k] == tag@;
                assert(self.tags@[k]@ == tag@);
            }
        }
        false
    }

    /// Whether the field is of the category.
    pub fn has_category(&self, category: &str) -> (r: bool)
        ensures
            r == (self@.category == category@),
    {
        const_str_eq(self.category.as_str(), category)
    }

    /// Whether the field has the given name, category and tag; a criterion
    /// that is absent always holds.
    pub fn matches(&self, name: Option<&str>, category: Option<&str>, tag: Option<&str>) -> (r:
        bool)
        ensures
            r == spec_matches(
                self@,
                crate::naming::opt_str_view(name),
                crate::naming::opt_str_view(category),
                crate::naming::opt_str_view(tag),
            ),
    {
        let name_ok = match name {
            Some(n) => const_str_eq(self.name.as_str(), n),
            None => true,
        };
        let category_ok = match category {
            Some(c) => self.has_category(c),
            None => true,
        };
        let tag_ok = match tag {
            Some(t) => self.has_tag(t),
            None => true,
        };
        name_ok && category_ok && tag_ok
    }
}

} // verus!
