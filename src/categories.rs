use std::collections::{BTreeMap, BTreeSet, HashMap, HashSet};
use vstd::prelude::*;

verus! {

/// A category marker type: one per category, carrying its name.
pub trait TypeCategory: Copy {
    spec fn spec_name() -> Seq<char>;

    /// The category's name, as it appears in field metadata.
    fn name() -> (r: &'static str)
        ensures
            r@ == Self::spec_name(),
    ;
}

/// Integers of every width and floating-point numbers.
#[derive(Debug, Clone, Copy, PartialEq, Eq)]
pub struct Numeric;

/// Owned strings, string slices and single characters.
#[derive(Debug, Clone, Copy, PartialEq, Eq)]
pub struct Text;

/// The boolean type.
#[derive(Debug, Clone, Copy, PartialEq, Eq)]
pub struct Bool;

/// An optional value of any type.
#[derive(Debug, Clone, Copy, PartialEq, Eq)]
pub struct Optional;

/// Sequences, sets and maps.
#[derive(Debug, Clone, Copy, PartialEq, Eq)]
pub struct Collection;

/// Types that match no other category.
#[derive(Debug, Clone, Copy, PartialEq, Eq)]
pub struct Unknown;

impl TypeCategory for Numeric {
    open spec fn spec_name() -> Seq<char> {
        "numeric"@
    }

    fn name() -> (r: &'static str) {
        "numeric"
    }
}

impl TypeCategory for Text {
    open spec fn spec_name() -> Seq<char> {
        "text"@
    }

    fn name() -> (r: &'static str) {
        "text"
    }
}

impl TypeCategory for Bool {
    open spec fn spec_name() -> Seq<char> {
        "bool"@
    }

    fn name() -> (r: &'static str) {
        "bool"
    }
}

impl TypeCategory for Optional {
    open spec fn spec_name() -> Seq<char> {
        "optional"@
    }

    fn name() -> (r: &'static str) {
        "optional"
    }
}

impl TypeCategory for Collection {
    open spec fn spec_name() -> Seq<char> {
        "collection"@
    }

    fn name() -> (r: &'static str) {
        "collection"
    }
}

impl TypeCategory for Unknown {
    open spec fn spec_name() -> Seq<char> {
        "unknown"@
    }

    fn name() -> (r: &'static str) {
        "unknown"
    }
}

/// A type's category, declared at the type level.
///
/// Implement this for a type of your own to place it in a category.
pub trait Categorized {
    type Category: TypeCategory;
}

impl Categorized for u8 {
    type Category = Numeric;
}

impl Categorized for u16 {
    type Category = Numeric;
}

impl Categorized for u32 {
    type Category = Numeric;
}

impl Categorized for u64 {
    type Category = Numeric;
}

impl Categorized for u128 {
    type Category = Numeric;
}

impl Categorized for usize {
    type Category = Numeric;
}

impl Categorized for i8 {
    type Category = Numeric;
}

impl Categorized for i16 {
    type Category = Numeric;
}

impl Categorized for i32 {
    type Category = Numeric;
}

impl Categorized for i64 {
    type Category = Numeric;
}

impl Categorized for i128 {
    type Category = Numeric;
}

impl Categorized for isize {
    type Category = Numeric;
}

impl Categorized for String {
    type Category = Text;
}

impl Categorized for &str {
    type Category = Text;
}

impl Categorized for Box<str> {
    type Category = Text;
}

impl Categorized for char {
    type Category = Text;
}

impl Categorized for bool {
    type Category = Bool;
}

impl<T> Categorized for Option<T> {
    type Category = Optional;
}

impl<T> Categorized for Vec<T> {
    type Category = Collection;
}

impl<T, const N: usize> Categorized for [T; N] {
    type Category = Collection;
}

impl<T> Categorized for &[T] {
    type Category = Collection;
}

impl<T, S> Categorized for HashSet<T, S> {
    type Category = Collection;
}

impl<T> Categorized for BTreeSet<T> {
    type Category = Collection;
}

impl<K, V, S> Categorized for HashMap<K, V, S> {
    type Category = Collection;
}

impl<K, V> Categorized for BTreeMap<K, V> {
    type Category = Collection;
}

/// The category name of a type that declares one.
pub fn category_of<T: Categorized>() -> (r: &'static str)
    ensures
        r@ == <T::Category as TypeCategory>::spec_name(),
{
    <T::Category as TypeCategory>::name()
}

} // verus!
