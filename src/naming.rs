use convert_case::{Case, Casing};
use vstd::prelude::*;

verus! {

/// The container-wide case-conversion rules that a record may declare.
#[derive(Debug, Clone, Copy, PartialEq, Eq, Structural)]
pub enum CaseRule {
    Camel,
    Snake,
    Pascal,
    ScreamingSnake,
    Kebab,
}

/// What `convert_case` makes of a name under a rule: the result depends on
/// the characters of the name and on the rule alone.
pub uninterp spec fn case_converted(name: Seq<char>, rule: CaseRule) -> Seq<char>;

/// Relies on `convert_case::Casing::to_case`, which splits the name into
/// words and joins them with the rule's pattern and delimiter.
#[verifier::external_body]
fn convert_to_case(name: &str, rule: CaseRule) -> (r: String)
    ensures
        r@ == case_converted(name@, rule),
{
    let case = match rule {
        CaseRule::Camel => Case::Camel,
        CaseRule::Snake => Case::Snake,
        CaseRule::Pascal => Case::Pascal,
        CaseRule::ScreamingSnake => Case::UpperSnake,
        CaseRule::Kebab => Case::Kebab,
    };
    name.to_case(case)
}

/// Character-wise equality of two strings.
pub fn const_str_eq(a: &str, b: &str) -> (r: bool)
    ensures
        r == (a@ == b@),
{
    let n = a.unicode_len();
    if n != b.unicode_len() {
        return false;
    }
    let mut i: usize = 0;
    while i < n
        invariant
            n == a@.len(),
            n == b@.len(),
            i <= n,
            a@.subrange(0, i as int) == b@.subrange(0, i as int),
        decreases n - i,
    {
        if a.get_char(i) != b.get_char(i) {
            assert(a@[i as int] != b@[i as int]);
            return false;
        }
        assert(a@.subrange(0, i + 1) == a@.subrange(0, i as int).push(a@[i as int]));
        assert(b@.subrange(0, i + 1) == b@.subrange(0, i as int).push(b@[i as int]));
        i = i + 1;
    }
    assert(a@ == a@.subrange(0, n as int));
    assert(b@ == b@.subrange(0, n as int));
    true
}

/// The rule named by a `rename_all` value, if it is one of the five known
/// spellings.
pub open spec fn spec_case_rule(s: Seq<char>) -> Option<CaseRule> {
    if s == "camelCase"@ {
        Some(CaseRule::Camel)
    } else if s == "snake_case"@ {
        Some(CaseRule::Snake)
    } else if s == "PascalCase"@ {
        Some(CaseRule::Pascal)
    } else if s == "SCREAMING_SNAKE_CASE"@ {
        Some(CaseRule::ScreamingSnake)
    } else if s == "kebab-case"@ {
        Some(CaseRule::Kebab)
    } else {
        None
    }
}

/// Reads a case-rule name; an unknown name means "no transform".
pub fn parse_case_rule(s: &str) -> (r: Option<CaseRule>)
    ensures
        r == spec_case_rule(s@),
{
    if const_str_eq(s, "camelCase") {
        Some(CaseRule::Camel)
    } else if const_str_eq(s, "snake_case") {
        Some(CaseRule::Snake)
    } else if const_str_eq(s, "PascalCase") {
        Some(CaseRule::Pascal)
    } else if const_str_eq(s, "SCREAMING_SNAKE_CASE") {
        Some(CaseRule::ScreamingSnake)
    } else if const_str_eq(s, "kebab-case") {
        Some(CaseRule::Kebab)
    } else {
        None
    }
}

/// The serialized name of a field: an explicit rename wins, then the
/// container rule applied to the declared name, then the declared name.
pub open spec fn spec_serialized_name(
    name: Seq<char>,
    rename: Option<Seq<char>>,
    rule: Option<CaseRule>,
) -> Seq<char> {
    match rename {
        Some(r) => r,
        None => match rule {
            Some(c) => case_converted(name, c),
            None => name,
        },
    }
}

/// The characters of an optional string.
pub open spec fn opt_str_view(o: Option<&str>) -> Option<Seq<char>> {
    match o {
        Some(s) => Some(s@),
        None => None,
    }
}

pub fn serialized_name(name: &str, rename: Option<&str>, rule: Option<CaseRule>) -> (r: String)
    ensures
        r@ == spec_serialized_name(name@, opt_str_view(rename), rule),
{
    match rename {
        Some(s) => s.to_owned(),
        None => match rule {
            Some(c) => convert_to_case(name, c),
            None => name.to_owned(),
        },
    }
}

} // verus!
