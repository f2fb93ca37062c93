use crate::categories::TypeCategory;
use crate::naming::const_str_eq;
use vstd::prelude::*;

verus! {

/// The metadata of one field, carried by a marker type of its own so that
/// code generic over fields sees the field's value type.
pub trait FieldInfo {
    /// The declared type of the field.
    type Value;

    /// The category marker of the declared type.
    type Category: TypeCategory;

    /// The declared name.
    fn name() -> &'static str;

    /// The serialized name.
    fn serialized_name() -> &'static str;

    /// The category name.
    fn category_name() -> &'static str;

    /// The tags, in declaration order.
    fn tags() -> &'static [&'static str];

    /// Whether the field carries the tag.
    fn has_tag(tag: &str) -> bool {
        tags_contain(Self::tags(), tag)
    }
}

/// Whether a list of tags holds the tag.
pub fn tags_contain(tags: &[&str], tag: &str) -> (r: bool)
    ensures
        r == tags@.map_values(|t: &str| t@).contains(tag@),
{
    let ghost ts = tags@.map_values(|t: &str| t@);
    let mut i: usize = 0;
    while i < tags.len()
        invariant
            i <= tags@.len(),
            ts == tags@.map_values(|t: &str| t@),
            forall|j: int| 0 <= j < i ==> ts[j] != tag@,
        decreases tags@.len() - i,
    {
        if const_str_eq(tags[i], tag) {
            assert(ts[i as int] == tag@);
            return true;
        }
        i = i + 1;
    }
    false
}

/// A type-level list of field marker types, whose length is known statically.
pub trait FieldCount {
    spec fn spec_count() -> nat;

    /// The number of fields in the list.
    fn count() -> (r: usize)
        requires
            Self::spec_count() <= usize::MAX,
        ensures
            r == Self::spec_count(),
    ;
}

/// Declares `frunk::HNil`, the empty type-level list, so that it can carry
/// an impl; nothing inside it is read.
#[verifier::external_type_specification]
#[verifier::external_body]
pub struct ExHNil(frunk::HNil);

/// Declares `frunk::HCons`, a head type in front of a type-level list, so
/// that it can carry an impl; nothing inside it is read.
#[verifier::external_type_specification]
#[verifier::external_body]
#[verifier::reject_recursive_types(H)]
#[verifier::reject_recursive_types(T)]
pub struct ExHCons<H, T>(frunk::HCons<H, T>);

impl FieldCount for frunk::HNil {
    open spec fn spec_count() -> nat {
        0
    }

    fn count() -> (r: usize) {
        0
    }
}

impl<H: FieldInfo, T: FieldCount> FieldCount for frunk::HCons<H, T> {
    open spec fn spec_count() -> nat {
        1 + T::spec_count()
    }

    fn count() -> (r: usize) {
        1 + T::count()
    }
}

/// Marks type-level lists whose every element is a field marker type.
pub trait HListVisitor {

}

impl HListVisitor for frunk::HNil {

}

impl<H: FieldInfo, T: HListVisitor> HListVisitor for frunk::HCons<H, T> {

}

} // verus!
