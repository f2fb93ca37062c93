use crate::catalog::{
    binding_of, builtin_categories, catalog_wf, is_builtin, is_registered_in, spec_classify,
    CatalogView, TypeShape,
};
use crate::field_meta::FieldMetaView;
use crate::naming::{spec_serialized_name, CaseRule};
use crate::query::{is_first, name_pred};
use crate::schema::{
    category_pred, result_view, spec_rule, FieldDecl, spec_compile, spec_compile_fields, spec_names,
    spec_serialized_names, CompiledSchema, RecordDecl, SchemaError,
};
use crate::visitor::VisitFields;
use vstd::multiset::Multiset;
use vstd::prelude::*;

verus! {

/// The field count of any metadata table equals the number of its declared names.
pub proof fn lemma_count_matches_names<T: VisitFields>(source: &T)
    ensures
        spec_names(source.spec_fields()).len() == source.spec_fields().len(),
{
}

/// Without per-field renames and without a container rule, the serialized
/// names of a compiled schema are its declared names.
pub proof fn lemma_names_equal_without_rename(d: RecordDecl, entries: Seq<(Seq<char>, Seq<char>)>)
    requires
        d.rename_all is None,
        forall|i: int| 0 <= i < d.fields@.len() ==> (#[trigger] d.fields@[i]).rename is None,
        spec_compile(d, entries) is Ok,
    ensures
        spec_names(spec_compile(d, entries)->Ok_0) == spec_serialized_names(
            spec_compile(d, entries)->Ok_0,
        ),
{
    lemma_compiled_names_unrenamed(entries, d.fields@);
}

proof fn lemma_compiled_names_unrenamed(
    entries: Seq<(Seq<char>, Seq<char>)>,
    fields: Seq<crate::schema::FieldDecl>,
)
    requires
        forall|i: int| 0 <= i < fields.len() ==> (#[trigger] fields[i]).rename is None,
    ensures
        spec_names(spec_compile_fields(entries, fields, None)) == spec_serialized_names(
            spec_compile_fields(entries, fields, None),
        ),
    decreases fields.len(),
{
    if fields.len() > 0 {
        let rest = fields.drop_last();
        assert forall|i: int| 0 <= i < rest.len() implies (#[trigger] rest[i]).rename is None by {
            assert(rest[i] == fields[i]);
        }
        lemma_compiled_names_unrenamed(entries, rest);
        assert(fields.last() == fields[fields.len() - 1]);
        let before = spec_compile_fields(entries, rest, None);
        let all = spec_compile_fields(entries, fields, None);
        assert(spec_names(all) == spec_serialized_names(all)) by {
            if !fields.last().skip {
                assert(all == before.push(crate::schema::spec_descriptor(entries, fields.last(), None)));
                assert(spec_names(all) == spec_names(before).push(fields.last().name@));
                assert(spec_serialized_names(all) == spec_serialized_names(before).push(
                    spec_serialized_name(fields.last().name@, None, None),
                ));
            }
        }
    }
}

/// No two fields of a compiled schema share a declared name.
pub proof fn lemma_names_unique(d: RecordDecl, entries: Seq<(Seq<char>, Seq<char>)>)
    requires
        spec_compile(d, entries) is Ok,
    ensures
        spec_names(spec_compile(d, entries)->Ok_0).no_duplicates(),
{
    lemma_compiled_names_from(entries, d.fields@, spec_rule(d));
}

/// The compiled names are distinct declared names when the declared ones are.
pub(crate) proof fn lemma_compiled_names_from(
    entries: Seq<(Seq<char>, Seq<char>)>,
    fields: Seq<FieldDecl>,
    rule: Option<CaseRule>,
)
    requires
        forall|i: int, j: int|
            0 <= i < j < fields.len() ==> (#[trigger] fields[i]).name@ != (#[trigger] fields[j]).name@,
    ensures
        spec_names(spec_compile_fields(entries, fields, rule)).no_duplicates(),
        forall|k: int|
            0 <= k < spec_compile_fields(entries, fields, rule).len() ==> exists|j: int|
                0 <= j < fields.len() && (#[trigger] spec_compile_fields(entries, fields, rule)[k]).name
                    == fields[j].name@,
    decreases fields.len(),
{
    if fields.len() > 0 {
        let rest = fields.drop_last();
        assert forall|i: int, j: int| 0 <= i < j < rest.len() implies (#[trigger] rest[i]).name@ != (
        #[trigger] rest[j]).name@ by {
            assert(rest[i] == fields[i] && rest[j] == fields[j]);
        }
        lemma_compiled_names_from(entries, rest, rule);
        let before = spec_compile_fields(entries, rest, rule);
        let all = spec_compile_fields(entries, fields, rule);
        let last = fields.len() - 1;
        assert(fields.last() == fields[last]);
        assert forall|k: int| 0 <= k < all.len() implies exists|j: int|
            0 <= j < fields.len() && (#[trigger] all[k]).name == fields[j].name@ by {
            if k < before.len() {
                assert(all[k] == before[k]);
                let j = choose|j: int| 0 <= j < rest.len() && (#[trigger] before[k]).name == rest[j].name@;
                assert(rest[j] == fields[j]);
            } else {
                assert(all[k].name == fields[last].name@);
            }
        }
        if !fields.last().skip {
            let ns = spec_names(all);
            assert forall|a: int, b: int|
                0 <= a < ns.len() && 0 <= b < ns.len() && a != b implies ns[a] != ns[b] by {
                if a < before.len() && b < before.len() {
                    assert(ns[a] == spec_names(before)[a]);
                    assert(ns[b] == spec_names(before)[b]);
                } else if a < before.len() {
                    assert(all[a] == before[a]);
                    let j = choose|j: int| 0 <= j < rest.len() && (#[trigger] before[a]).name == rest[j].name@;
                    assert(rest[j] == fields[j]);
                    assert(fields[j].name@ != fields[last].name@);
                } else {
                    assert(all[b] == before[b]);
                    let j = choose|j: int| 0 <= j < rest.len() && (#[trigger] before[b]).name == rest[j].name@;
                    assert(rest[j] == fields[j]);
                    assert(fields[j].name@ != fields[last].name@);
                }
            }
        }
    }
}

/// Every declared name of a table is found by a lookup: it has a first
/// field, so name-existence holds and a category is present for it.
pub proof fn lemma_every_name_found<T: VisitFields>(source: &T, name: Seq<char>)
    requires
        spec_names(source.spec_fields()).contains(name),
    ensures
        exists|i: int| is_first(source.spec_fields(), i, name_pred(name)),
{
    let fs = source.spec_fields();
    let k = choose|k: int| 0 <= k < spec_names(fs).len() && spec_names(fs)[k] == name;
    assert(name_pred(name)(fs[k]));
    lemma_first_exists(fs, name_pred(name), k);
}

proof fn lemma_first_exists(fs: Seq<FieldMetaView>, p: spec_fn(FieldMetaView) -> bool, k: int)
    requires
        0 <= k < fs.len(),
        p(fs[k]),
    ensures
        exists|i: int| is_first(fs, i, p),
    decreases k,
{
    if exists|j: int| 0 <= j < k && p(#[trigger] fs[j]) {
        let j = choose|j: int| 0 <= j < k && p(#[trigger] fs[j]);
        lemma_first_exists(fs, p, j);
    } else {
        assert(is_first(fs, k, p));
    }
}

/// When every field is of a built-in category, the names per built-in
/// category partition the declared names: each declared name is in exactly
/// one of the six lists, and the lists hold declared names only.
pub proof fn lemma_builtin_categories_partition(d: RecordDecl, entries: Seq<(Seq<char>, Seq<char>)>)
    requires
        spec_compile(d, entries) is Ok,
        forall|i: int|
            0 <= i < spec_compile(d, entries)->Ok_0.len() ==> is_builtin(
                #[trigger] spec_compile(d, entries)->Ok_0[i].category,
            ),
    ensures
        forall|k: int, n: Seq<char>|
            0 <= k < 6 && #[trigger] spec_names(
                spec_compile(d, entries)->Ok_0.filter(category_pred(builtin_categories()[k])),
            ).contains(n) ==> spec_names(spec_compile(d, entries)->Ok_0).contains(n),
        forall|n: Seq<char>|
            #[trigger] spec_names(spec_compile(d, entries)->Ok_0).contains(n) ==> exists|k: int|
                0 <= k < 6 && #[trigger] spec_names(
                    spec_compile(d, entries)->Ok_0.filter(category_pred(builtin_categories()[k])),
                ).contains(n),
        forall|k1: int, k2: int, n: Seq<char>|
            0 <= k1 < 6 && 0 <= k2 < 6 && k1 != k2 && #[trigger] spec_names(
                spec_compile(d, entries)->Ok_0.filter(category_pred(builtin_categories()[k1])),
            ).contains(n) ==> !(#[trigger] spec_names(
                spec_compile(d, entries)->Ok_0.filter(category_pred(builtin_categories()[k2])),
            ).contains(n)),
{
    lemma_names_unique(d, entries);
    let fs = spec_compile(d, entries)->Ok_0;
    let b = builtin_categories();
    reveal_strlit("numeric");
    reveal_strlit("text");
    reveal_strlit("bool");
    reveal_strlit("optional");
    reveal_strlit("collection");
    reveal_strlit("unknown");
    assert(forall|k1: int, k2: int| 0 <= k1 < 6 && 0 <= k2 < 6 && k1 != k2 ==> b[k1] != b[k2]) by {
        assert(b[0][0] == 'n' && b[1][0] == 't' && b[2][0] == 'b' && b[3][0] == 'o' && b[4][0] == 'c'
            && b[5][0] == 'u');
    }
    assert forall|k: int, n: Seq<char>|
        0 <= k < 6 && #[trigger] spec_names(fs.filter(category_pred(b[k]))).contains(n) implies exists|i: int|
            0 <= i < fs.len() && fs[i].name == n && fs[i].category == b[k] by {
        lemma_in_filtered_names(fs, category_pred(b[k]), n);
    }
    assert forall|k: int, n: Seq<char>|
        0 <= k < 6 && #[trigger] spec_names(fs.filter(category_pred(b[k]))).contains(n) implies spec_names(
            fs,
        ).contains(n) by {
        let i = choose|i: int| 0 <= i < fs.len() && fs[i].name == n && fs[i].category == b[k];
        assert(spec_names(fs)[i] == n);
    }
    assert forall|n: Seq<char>| #[trigger] spec_names(fs).contains(n) implies exists|k: int|
        0 <= k < 6 && #[trigger] spec_names(fs.filter(category_pred(b[k]))).contains(n) by {
        let i = choose|i: int| 0 <= i < spec_names(fs).len() && spec_names(fs)[i] == n;
        assert(is_builtin(fs[i].category));
        let k = choose|k: int| 0 <= k < b.len() && b[k] == fs[i].category;
        lemma_filtered_names_contain(fs, category_pred(b[k]), i);
    }
    assert forall|k1: int, k2: int, n: Seq<char>|
        0 <= k1 < 6 && 0 <= k2 < 6 && k1 != k2 && #[trigger] spec_names(
            fs.filter(category_pred(b[k1])),
        ).contains(n) implies !(#[trigger] spec_names(fs.filter(category_pred(b[k2]))).contains(n)) by {
        if spec_names(fs.filter(category_pred(b[k2]))).contains(n) {
            let i = choose|i: int| 0 <= i < fs.len() && fs[i].name == n && fs[i].category == b[k1];
            let j = choose|j: int| 0 <= j < fs.len() && fs[j].name == n && fs[j].category == b[k2];
            assert(spec_names(fs)[i] == spec_names(fs)[j]);
        }
    }
}

proof fn lemma_in_filtered_names(fs: Seq<FieldMetaView>, p: spec_fn(FieldMetaView) -> bool, n: Seq<char>)
    requires
        spec_names(fs.filter(p)).contains(n),
    ensures
        exists|i: int| 0 <= i < fs.len() && fs[i].name == n && p(fs[i]),
{
    let sub = fs.filter(p);
    let k = choose|k: int| 0 <= k < spec_names(sub).len() && spec_names(sub)[k] == n;
    fs.lemma_filter_pred(p, k);
    assert(sub.contains(sub[k]));
    fs.lemma_filter_contains_rev(p, sub[k]);
    let i = choose|i: int| 0 <= i < fs.len() && fs[i] == sub[k];
    assert(fs[i].name == n && p(fs[i]));
}

proof fn lemma_filtered_names_contain(fs: Seq<FieldMetaView>, p: spec_fn(FieldMetaView) -> bool, i: int)
    requires
        0 <= i < fs.len(),
        p(fs[i]),
    ensures
        spec_names(fs.filter(p)).contains(fs[i].name),
{
    fs.lemma_filter_contains(p, i);
    let sub = fs.filter(p);
    let k = choose|k: int| 0 <= k < sub.len() && sub[k] == fs[i];
    assert(spec_names(sub)[k] == fs[i].name);
}

/// The declared names of the fields in the built-in category of position `k`,
/// counted with multiplicity.
pub open spec fn builtin_group(fs: Seq<FieldMetaView>, k: int) -> Multiset<Seq<char>> {
    spec_names(fs.filter(category_pred(builtin_categories()[k]))).to_multiset()
}

/// The six built-in category lists taken together, counted with multiplicity.
pub open spec fn builtin_groups(fs: Seq<FieldMetaView>) -> Multiset<Seq<char>> {
    builtin_group(fs, 0).add(builtin_group(fs, 1)).add(builtin_group(fs, 2)).add(
        builtin_group(fs, 3),
    ).add(builtin_group(fs, 4)).add(builtin_group(fs, 5))
}

/// When every field is of a built-in category, the six lists of names by
/// built-in category hold, together, each declared name exactly as often
/// as the declared names do: each field is in one list and in one only.
pub proof fn lemma_builtin_groups_count_names(fs: Seq<FieldMetaView>)
    requires
        forall|i: int| 0 <= i < fs.len() ==> is_builtin(#[trigger] fs[i].category),
    ensures
        builtin_groups(fs) == spec_names(fs).to_multiset(),
    decreases fs.len(),
{
    broadcast use vstd::seq_lib::group_to_multiset_ensures;
    broadcast use vstd::multiset::group_multiset_axioms;

    if fs.len() == 0 {
        assert(builtin_groups(fs) =~= spec_names(fs).to_multiset()) by {
            reveal(Seq::filter);
            assert forall|k: int| 0 <= k < 6 implies builtin_group(fs, k) =~= Multiset::empty() by {
                assert(spec_names(fs.filter(category_pred(builtin_categories()[k]))) =~= Seq::empty());
            }
            assert(spec_names(fs) =~= Seq::empty());
        }
    } else {
        let rest = fs.drop_last();
        let last = fs.last();
        assert forall|i: int| 0 <= i < rest.len() implies is_builtin(#[trigger] rest[i].category) by {
            assert(rest[i] == fs[i]);
        }
        lemma_builtin_groups_count_names(rest);
        assert(last == fs[fs.len() - 1]);
        let b = builtin_categories();
        reveal_strlit("numeric");
        reveal_strlit("text");
        reveal_strlit("bool");
        reveal_strlit("optional");
        reveal_strlit("collection");
        reveal_strlit("unknown");
        assert(b[0][0] == 'n' && b[1][0] == 't' && b[2][0] == 'b' && b[3][0] == 'o' && b[4][0] == 'c'
            && b[5][0] == 'u');
        let m = choose|m: int| 0 <= m < b.len() && b[m] == last.category;
        assert forall|k: int| 0 <= k < 6 implies builtin_group(fs, k) == (if k == m {
            builtin_group(rest, k).insert(last.name)
        } else {
            builtin_group(rest, k)
        }) by {
            reveal(Seq::filter);
            let sub = rest.filter(category_pred(b[k]));
            if k == m {
                assert(spec_names(sub.push(last)) == spec_names(sub).push(last.name));
            } else {
                assert(b[k] != b[m]);
            }
        }
        assert(spec_names(fs) == spec_names(rest).push(last.name));
        assert(builtin_groups(fs) =~= builtin_groups(rest).insert(last.name));
    }
}

/// Every category in a compiled schema is registered in the catalog it was
/// compiled against: a built-in one or a user one.
pub proof fn lemma_categories_registered(d: RecordDecl, catalog: CatalogView)
    requires
        catalog_wf(catalog),
        spec_compile(d, catalog.bindings) is Ok,
    ensures
        forall|i: int|
            0 <= i < spec_compile(d, catalog.bindings)->Ok_0.len() ==> is_registered_in(
                catalog,
                #[trigger] spec_compile(d, catalog.bindings)->Ok_0[i].category,
            ),
{
    let entries = catalog.bindings;
    lemma_compiled_categories(entries, d.fields@, spec_rule(d));
    let fs = spec_compile(d, entries)->Ok_0;
    assert forall|i: int| 0 <= i < fs.len() implies is_registered_in(catalog, #[trigger] fs[i].category) by {
        if !is_builtin(fs[i].category) {
            let k = choose|k: int| 0 <= k < entries.len() && entries[k].0 == fs[i].category;
            assert(is_registered_in(catalog, entries[k].0));
        }
    }
}

proof fn lemma_compiled_categories(
    entries: Seq<(Seq<char>, Seq<char>)>,
    fields: Seq<FieldDecl>,
    rule: Option<CaseRule>,
)
    ensures
        forall|i: int|
            0 <= i < spec_compile_fields(entries, fields, rule).len() ==> is_builtin(
                #[trigger] spec_compile_fields(entries, fields, rule)[i].category,
            ) || exists|k: int|
                0 <= k < entries.len() && entries[k].0 == spec_compile_fields(
                    entries,
                    fields,
                    rule,
                )[i].category,
    decreases fields.len(),
{
    if fields.len() > 0 {
        lemma_compiled_categories(entries, fields.drop_last(), rule);
        let before = spec_compile_fields(entries, fields.drop_last(), rule);
        let all = spec_compile_fields(entries, fields, rule);
        if !fields.last().skip {
            lemma_classified_registered(entries, fields.last().ty);
            assert forall|i: int| 0 <= i < all.len() implies is_builtin(#[trigger] all[i].category)
                || exists|k: int| 0 <= k < entries.len() && entries[k].0 == all[i].category by {
                if i < before.len() {
                    assert(all[i] == before[i]);
                }
            }
        }
    }
}

proof fn lemma_classified_registered(entries: Seq<(Seq<char>, Seq<char>)>, ty: TypeShape)
    ensures
        is_builtin(spec_classify(entries, ty)) || exists|k: int|
            0 <= k < entries.len() && entries[k].0 == spec_classify(entries, ty),
{
    let b = builtin_categories();
    assert(b[0] == "numeric"@ && b[1] == "text"@ && b[2] == "bool"@ && b[3] == "optional"@ && b[4]
        == "collection"@ && b[5] == "unknown"@);
    if let TypeShape::Named(t) = ty {
        lemma_binding_registered(entries, t@);
    }
}

proof fn lemma_binding_registered(entries: Seq<(Seq<char>, Seq<char>)>, t: Seq<char>)
    ensures
        binding_of(entries, t) matches Some(c) ==> exists|k: int| 0 <= k < entries.len() && entries[k].0 == c,
    decreases entries.len(),
{
    if entries.len() > 0 && entries[0].1 != t {
        lemma_binding_registered(entries.drop_first(), t);
        if let Some(c) = binding_of(entries, t) {
            let k = choose|k: int| 0 <= k < entries.len() - 1 && entries.drop_first()[k].0 == c;
            assert(entries[k + 1].0 == c);
        }
    }
}

/// Compiling one declaration twice against one catalog gives the same
/// outcome: the same fields in the same order with the same metadata, or
/// the same error.
pub proof fn lemma_compile_deterministic(
    d: RecordDecl,
    entries: Seq<(Seq<char>, Seq<char>)>,
    first: Result<CompiledSchema, SchemaError>,
    second: Result<CompiledSchema, SchemaError>,
)
    requires
        result_view(first) == spec_compile(d, entries),
        result_view(second) == spec_compile(d, entries),
    ensures
        result_view(first) == result_view(second),
{
}

} // verus!
