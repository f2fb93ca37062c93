use crate::naming::const_str_eq;
use vstd::prelude::*;

verus! {

/// The primitive numeric types.
#[derive(Debug, Clone, Copy, PartialEq, Eq, Structural)]
pub enum NumberKind {
    U8,
    U16,
    U32,
    U64,
    U128,
    Usize,
    I8,
    I16,
    I32,
    I64,
    I128,
    Isize,
    F32,
    F64,
}

/// The string-like types.
#[derive(Debug, Clone, Copy, PartialEq, Eq, Structural)]
pub enum TextKind {
    String,
    Str,
    BoxStr,
    Char,
}

/// Containers of one element type.
#[derive(Debug, Clone, Copy, PartialEq, Eq, Structural)]
pub enum SequenceKind {
    Vec,
    Array(usize),
    Slice,
    HashSet,
    BTreeSet,
}

/// Containers from keys to values.
#[derive(Debug, Clone, Copy, PartialEq, Eq, Structural)]
pub enum MapKind {
    HashMap,
    BTreeMap,
}

/// The declared type of a field, as far as classification reads it.
#[derive(Debug)]
pub enum TypeShape {
    Bool,
    Number(NumberKind),
    Text(TextKind),
    Optional(Box<TypeShape>),
    Sequence(SequenceKind, Box<TypeShape>),
    Mapping(MapKind, Box<TypeShape>, Box<TypeShape>),
    /// A type of the user's own, known by its name.
    Named(String),
}

/// The six categories that every catalog holds from the start.
pub open spec fn builtin_categories() -> Seq<Seq<char>> {
    seq!["numeric"@, "text"@, "bool"@, "optional"@, "collection"@, "unknown"@]
}

pub open spec fn is_builtin(name: Seq<char>) -> bool {
    builtin_categories().contains(name)
}

/// The number of built-in categories; user categories are numbered after them.
pub const BUILTIN_COUNT: usize = 6;

/// An identifier of a registered category: its position in the catalog.
pub type CategoryId = usize;

/// The error of a catalog change.
#[derive(Debug, Clone, Copy, PartialEq, Eq, Structural)]
pub enum CatalogError {
    /// The name is that of a built-in category, whose rule is structural.
    DuplicateCategory,
    /// The category of a binding is not registered.
    UnknownCategory,
    /// The type is already bound to another category.
    ConflictingBinding,
}

/// The catalog as its values read in specifications: the user category
/// names, and the bindings of user types, each as (category, type).
pub struct CatalogView {
    pub categories: Seq<Seq<char>>,
    pub bindings: Seq<(Seq<char>, Seq<char>)>,
}

/// A category name that the catalog holds: a built-in one or a user one.
pub open spec fn is_registered_in(v: CatalogView, name: Seq<char>) -> bool {
    is_builtin(name) || v.categories.contains(name)
}

/// User category names are unique and none is a built-in name; each type is
/// bound at most once, and only to a registered category.
pub open spec fn catalog_wf(v: CatalogView) -> bool {
    &&& forall|i: int| 0 <= i < v.categories.len() ==> !is_builtin(#[trigger] v.categories[i])
    &&& v.categories.no_duplicates()
    &&& forall|i: int, j: int|
        0 <= i < j < v.bindings.len() ==> (#[trigger] v.bindings[i]).1 != (#[trigger] v.bindings[j]).1
    &&& forall|i: int| 0 <= i < v.bindings.len() ==> is_registered_in(v, (#[trigger] v.bindings[i]).0)
}

/// The category that a user type is bound to, from the first binding of it.
pub open spec fn binding_of(entries: Seq<(Seq<char>, Seq<char>)>, member: Seq<char>) -> Option<
    Seq<char>,
>
    decreases entries.len(),
{
    if entries.len() == 0 {
        None
    } else if entries[0].1 == member {
        Some(entries[0].0)
    } else {
        binding_of(entries.drop_first(), member)
    }
}

/// The category of a declared type: an explicit binding first, then the
/// structural rules, then `unknown`. An optional wrapper dominates whatever
/// it wraps.
pub open spec fn spec_classify(entries: Seq<(Seq<char>, Seq<char>)>, ty: TypeShape) -> Seq<char> {
    match ty {
        TypeShape::Named(t) => match binding_of(entries, t@) {
            Some(c) => c,
            None => "unknown"@,
        },
        TypeShape::Bool => "bool"@,
        TypeShape::Optional(_) => "optional"@,
        TypeShape::Number(_) => "numeric"@,
        TypeShape::Text(_) => "text"@,
        TypeShape::Sequence(_, _) => "collection"@,
        TypeShape::Mapping(_, _, _) => "collection"@,
    }
}

/// A user type bound to a category.
#[derive(Debug)]
pub struct Binding {
    pub category: String,
    pub member: String,
}

/// The registered categories, the built-ins and those the user added, and
/// the categories that user types are bound to.
pub struct CategoryCatalog {
    categories: Vec<String>,
    bindings: Vec<Binding>,
}

impl View for CategoryCatalog {
    type V = CatalogView;

    closed spec fn view(&self) -> CatalogView {
        CatalogView {
            categories: self.categories@.map_values(|c: String| c@),
            bindings: self.bindings@.map_values(|b: Binding| (b.category@, b.member@)),
        }
    }
}

impl CategoryCatalog {
    pub open spec fn wf(&self) -> bool {
        catalog_wf(self@)
    }

    /// A catalog with the built-in categories only and no bindings.
    pub fn new() -> (r: Self)
        ensures
            r.wf(),
            r@.categories == Seq::<Seq<char>>::empty(),
            r@.bindings == Seq::<(Seq<char>, Seq<char>)>::empty(),
    {
        CategoryCatalog { categories: Vec::new(), bindings: Vec::new() }
    }

    /// The position of a user category name, if it is registered.
    fn find_category(&self, name: &str) -> (r: Option<usize>)
        ensures
            match r {
                Some(i) => i < self@.categories.len() && self@.categories[i as int] == name@,
                None => !self@.categories.contains(name@),
            },
    {
        let mut i: usize = 0;
        while i < self.categories.len()
            invariant
                i <= self@.categories.len(),
                self@.categories.len() == self.categories@.len(),
                forall|j: int| 0 <= j < i ==> self@.categories[j] != name@,
            decreases self.categories.len() - i,
        {
            if const_str_eq(self.categories[i].as_str(), name) {
                return Some(i);
            }
            i = i + 1;
        }
        None
    }

    /// Whether a category of this name is registered.
    pub fn is_registered(&self, name: &str) -> (r: bool)
        ensures
            r == is_registered_in(self@, name@),
    {
        is_builtin_name(name) || self.find_category(name).is_some()
    }

    /// Adds a user category. Registering a user name again is harmless and
    /// gives the same identifier; a built-in name is refused, since its rule
    /// is structural and a user category's rule is its bindings.
    pub fn register(&mut self, name: &str) -> (r: Result<CategoryId, CatalogError>)
        requires
            old(self).wf(),
            old(self)@.categories.len() + BUILTIN_COUNT < usize::MAX,
        ensures
            final(self).wf(),
            final(self)@.bindings == old(self)@.bindings,
            is_builtin(name@) ==> r == Err::<CategoryId, CatalogError>(
                CatalogError::DuplicateCategory,
            ) && final(self)@ == old(self)@,
            forall|i: int|
                0 <= i < old(self)@.categories.len() && old(self)@.categories[i] == name@
                    ==> final(self)@ == old(self)@ && r == Ok::<CategoryId, CatalogError>(
                    (i + BUILTIN_COUNT) as usize,
                ),
            !is_builtin(name@) && !old(self)@.categories.contains(name@)
                ==> final(self)@.categories == old(self)@.categories.push(name@)
                && r == Ok::<CategoryId, CatalogError>(
                (old(self)@.categories.len() + BUILTIN_COUNT) as usize,
            ),
    {
        if is_builtin_name(name) {
            return Err(CatalogError::DuplicateCategory);
        }
        match self.find_category(name) {
            Some(i) => {
                proof {
                    assert forall|j: int|
                        0 <= j < self@.categories.len() && self@.categories[j] == name@ implies j
                        == i by {
                        if j != i {
                            assert(self@.categories[j] != self@.categories[i as int]);
                        }
                    }
                }
                Ok(i + BUILTIN_COUNT)
            },
            None => {
                let ghost before = self@;
                let id = self.categories.len() + BUILTIN_COUNT;
                self.categories.push(name.to_owned());
                assert(self@.categories == before.categories.push(name@));
                assert(self@.bindings == before.bindings);
                assert forall|i: int| 0 <= i < self@.bindings.len() implies is_registered_in(
                    self@,
                    (#[trigger] self@.bindings[i]).0,
                ) by {
                    assert(is_registered_in(before, before.bindings[i].0));
                    if before.categories.contains(before.bindings[i].0) {
                        let k = choose|k: int|
                            0 <= k < before.categories.len() && before.categories[k]
                                == before.bindings[i].0;
                        assert(self@.categories[k] == before.categories[k]);
                    }
                }
                Ok(id)
            },
        }
    }

    /// Binds a user type to a registered category, built-in or user. Several
    /// types may share a category; a type has at most one category, and
    /// binding it again to the same one is harmless. A type bound to a
    /// category is classified as that category.
    pub fn bind(&mut self, member: &str, category: &str) -> (r: Result<(), CatalogError>)
        requires
            old(self).wf(),
        ensures
            final(self).wf(),
            final(self)@.categories == old(self)@.categories,
            !is_registered_in(old(self)@, category@) ==> r == Err::<(), CatalogError>(
                CatalogError::UnknownCategory,
            ) && final(self)@ == old(self)@,
            is_registered_in(old(self)@, category@) ==> match binding_of(
                old(self)@.bindings,
                member@,
            ) {
                Some(c) => final(self)@ == old(self)@ && (if c == category@ {
                    r == Ok::<(), CatalogError>(())
                } else {
                    r == Err::<(), CatalogError>(CatalogError::ConflictingBinding)
                }),
                None => r == Ok::<(), CatalogError>(())
                    && final(self)@.bindings == old(self)@.bindings.push((category@, member@)),
            },
            r is Ok ==> binding_of(final(self)@.bindings, member@) == Some(category@),
    {
        if !self.is_registered(category) {
            return Err(CatalogError::UnknownCategory);
        }
        let ghost before = self@;
        proof {
            assert(before.bindings.subrange(0, before.bindings.len() as int) == before.bindings);
        }
        let mut i: usize = 0;
        while i < self.bindings.len()
            invariant
                i <= self@.bindings.len(),
                self@.bindings.len() == self.bindings@.len(),
                self@ == before,
                *self == *old(self),
                before == old(self)@,
                self.wf(),
                is_registered_in(before, category@),
                forall|j: int| 0 <= j < i ==> before.bindings[j].1 != member@,
                binding_of(before.bindings, member@) == binding_of(
                    before.bindings.subrange(i as int, before.bindings.len() as int),
                    member@,
                ),
            decreases self.bindings.len() - i,
        {
            let ghost rest = before.bindings.subrange(i as int, before.bindings.len() as int);
            assert(rest.drop_first() == before.bindings.subrange(i + 1, before.bindings.len() as int));
            assert(self@.bindings[i as int] == (
                self.bindings@[i as int].category@,
                self.bindings@[i as int].member@,
            ));
            if const_str_eq(self.bindings[i].member.as_str(), member) {
                assert(rest[0] == before.bindings[i as int]);
                if const_str_eq(self.bindings[i].category.as_str(), category) {
                    return Ok(());
                } else {
                    return Err(CatalogError::ConflictingBinding);
                }
            }
            i = i + 1;
        }
        let b = Binding { category: category.to_owned(), member: member.to_owned() };
        self.bindings.push(b);
        assert(self@.bindings == before.bindings.push((category@, member@)));
        assert(self@.categories == before.categories);
        proof {
            lemma_binding_of_push(before.bindings, category@, member@);
        }
        Ok(())
    }

    /// The category of a declared type (never fails: `unknown` is the fallback).
    pub fn resolve(&self, ty: &TypeShape) -> (r: String)
        ensures
            r@ == spec_classify(self@.bindings, *ty),
    {
        match ty {
            TypeShape::Named(t) => {
                let ghost bs = self@.bindings;
                assert(bs.subrange(0, bs.len() as int) == bs);
                let mut i: usize = 0;
                while i < self.bindings.len()
                    invariant
                        i <= bs.len(),
                        bs == self@.bindings,
                        bs.len() == self.bindings@.len(),
                        binding_of(bs, t@) == binding_of(bs.subrange(i as int, bs.len() as int), t@),
                        *ty == TypeShape::Named(*t),
                    decreases self.bindings.len() - i,
                {
                    let ghost rest = bs.subrange(i as int, bs.len() as int);
                    assert(rest.drop_first() == bs.subrange(i + 1, bs.len() as int));
                    assert(bs[i as int] == (
                        self.bindings@[i as int].category@,
                        self.bindings@[i as int].member@,
                    ));
                    if self.bindings[i].member == *t {
                        assert(rest[0] == bs[i as int]);
                        assert(binding_of(rest, t@) == Some(rest[0].0));
                        return self.bindings[i].category.clone();
                    }
                    i = i + 1;
                }
                "unknown".to_owned()
            },
            TypeShape::Bool => "bool".to_owned(),
            TypeShape::Optional(_) => "optional".to_owned(),
            TypeShape::Number(_) => "numeric".to_owned(),
            TypeShape::Text(_) => "text".to_owned(),
            TypeShape::Sequence(_, _) => "collection".to_owned(),
            TypeShape::Mapping(_, _, _) => "collection".to_owned(),
        }
    }
}

/// A new binding of a type that had none is the one found for it.
proof fn lemma_binding_of_push(
    entries: Seq<(Seq<char>, Seq<char>)>,
    category: Seq<char>,
    member: Seq<char>,
)
    requires
        forall|j: int| 0 <= j < entries.len() ==> entries[j].1 != member,
    ensures
        binding_of(entries.push((category, member)), member) == Some(category),
    decreases entries.len(),
{
    if entries.len() > 0 {
        lemma_binding_of_push(entries.drop_first(), category, member);
        assert(entries.push((category, member)).drop_first() == entries.drop_first().push(
            (category, member),
        ));
    }
}

/// Whether a name is one of the six built-in category names.
fn is_builtin_name(name: &str) -> (r: bool)
    ensures
        r == is_builtin(name@),
{
    let r = const_str_eq(name, "numeric") || const_str_eq(name, "text") || const_str_eq(name, "bool")
        || const_str_eq(name, "optional") || const_str_eq(name, "collection") || const_str_eq(
        name,
        "unknown",
    );
    assert(builtin_categories()[0] == "numeric"@);
    assert(builtin_categories()[1] == "text"@);
    assert(builtin_categories()[2] == "bool"@);
    assert(builtin_categories()[3] == "optional"@);
    assert(builtin_categories()[4] == "collection"@);
    assert(builtin_categories()[5] == "unknown"@);
    r
}

} // verus!
