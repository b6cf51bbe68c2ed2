use vstd::prelude::*;

verus! {

/// The character sequence that `str::to_uppercase` produces from `s`
/// (full Unicode case mapping, as defined by the standard library).
pub uninterp spec fn uppercase_of(s: Seq<char>) -> Seq<char>;

/// The character sequence that `str::to_lowercase` produces from `s`
/// (full Unicode case mapping, as defined by the standard library).
pub uninterp spec fn lowercase_of(s: Seq<char>) -> Seq<char>;

/// Calls `str::to_uppercase`. The contract only names the result: it is
/// `uppercase_of` applied to the characters of `s`; nothing more about Unicode
/// case mapping is claimed.
#[verifier::external_body]
pub(crate) fn to_upper(s: &str) -> (r: String)
    ensures
        r@ == uppercase_of(s@),
{
    s.to_uppercase()
}

/// Calls `str::to_lowercase`. The contract only names the result: it is
/// `lowercase_of` applied to the characters of `s`; nothing more about Unicode
/// case mapping is claimed.
#[verifier::external_body]
pub(crate) fn to_lower(s: &str) -> (r: String)
    ensures
        r@ == lowercase_of(s@),
{
    s.to_lowercase()
}

/// Compares two strings character by character.
pub fn same_text(a: &str, b: &str) -> (r: bool)
    ensures
        r == (a@ == b@),
{
    let x = a.to_owned();
    let y = b.to_owned();
    x == y
}

/// Concatenates two strings into a new one.
pub(crate) fn join2(a: &str, b: &str) -> (r: String)
    ensures
        r@ == a@ + b@,
{
    let s = String::from_str(a);
    s.concat(b)
}

/// Concatenates three strings into a new one.
pub(crate) fn join3(a: &str, b: &str, c: &str) -> (r: String)
    ensures
        r@ == a@ + b@ + c@,
{
    let s = String::from_str(a);
    let s = s.concat(b);
    s.concat(c)
}

} // verus!
