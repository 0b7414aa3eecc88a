//! Text utilities: the case conversions and the type-expression check that
//! the compiler takes from outside crates, each behind one trusted wrapper,
//! plus small verified string helpers.

use vstd::prelude::*;
use heck::CamelCase;
use heck::SnakeCase;

verus! {

/// The snake_case rendering of a string; the result depends on the
/// characters alone.
pub uninterp spec fn snake_of(s: Seq<char>) -> Seq<char>;

/// The CamelCase rendering of a string; the result depends on the
/// characters alone.
pub uninterp spec fn camel_of(s: Seq<char>) -> Seq<char>;

/// Whether a string parses as a Rust type expression; the verdict depends
/// on the characters alone.
pub uninterp spec fn parses_as_type(s: Seq<char>) -> bool;

/// Relies on heck's `SnakeCase::to_snake_case` for `str`: a pure
/// character-level transform.
#[verifier::external_body]
pub fn to_snake_case(s: &str) -> (r: String)
    ensures
        r@ == snake_of(s@),
{
    SnakeCase::to_snake_case(s)
}

/// Relies on heck's `CamelCase::to_camel_case` for `str`: a pure
/// character-level transform.
#[verifier::external_body]
pub fn to_camel_case(s: &str) -> (r: String)
    ensures
        r@ == camel_of(s@),
{
    CamelCase::to_camel_case(s)
}

/// Relies on `syn::parse_str::<syn::Type>`: whether the text is a
/// well-formed type expression.
#[verifier::external_body]
pub fn type_text_parses(s: &str) -> (r: bool)
    ensures
        r == parses_as_type(s@),
{
    syn::parse_str::<syn::Type>(s).is_ok()
}

/// Character-for-character string equality.
pub fn str_eq(a: &str, b: &str) -> (r: bool)
    ensures
        r == (a@ == b@),
{
    let na = a.unicode_len();
    let nb = b.unicode_len();
    if na != nb {
        return false;
    }
    let mut i: usize = 0;
    while i < na
        invariant
            i <= na,
            na == a@.len(),
            na == b@.len(),
            forall|j: int| 0 <= j < i ==> a@[j] == b@[j],
        decreases na - i,
    {
        if a.get_char(i) != b.get_char(i) {
            return false;
        }
        i += 1;
    }
    proof {
        assert(a@ =~= b@);
    }
    true
}

/// Whether the string holds an underscore anywhere.
pub fn contains_underscore(s: &str) -> (r: bool)
    ensures
        r == s@.contains('_'),
{
    let n = s.unicode_len();
    let mut i: usize = 0;
    while i < n
        invariant
            i <= n,
            n == s@.len(),
            forall|j: int| 0 <= j < i ==> s@[j] != '_',
        decreases n - i,
    {
        if s.get_char(i) == '_' {
            return true;
        }
        i += 1;
    }
    false
}

/// Concatenation of two strings.
pub fn concat_str(a: &str, b: &str) -> (r: String)
    ensures
        r@ == a@ + b@,
{
    let mut r = String::from_str(a);
    r.append(b);
    r
}


/// A copy of an optional string.
pub fn clone_opt_string(s: &Option<String>) -> (r: Option<String>)
    ensures
        r == *s,
{
    match s {
        Some(x) => Some(x.clone()),
        None => None,
    }
}

/// A copy of a vector of strings.
pub fn clone_string_vec(v: &Vec<String>) -> (r: Vec<String>)
    ensures
        r@ == v@,
{
    let mut r: Vec<String> = Vec::new();
    let mut i: usize = 0;
    while i < v.len()
        invariant
            i <= v.len(),
            r@ == v@.take(i as int),
        decreases v.len() - i,
    {
        r.push(v[i].clone());
        proof {
            assert(r@ =~= v@.take(i as int + 1));
        }
        i += 1;
    }
    proof {
        assert(v@.take(v@.len() as int) =~= v@);
    }
    r
}

} // verus!
