use vstd::prelude::*;

verus! {

/// Equality of two string slices.
///
/// Trusted: calls std's `<str as PartialEq>::eq`, which std documents as
/// comparing the two slices' contents; two `str` values hold the same
/// characters exactly when they hold the same UTF-8 bytes, so the result is
/// the equality of the character sequences.
#[verifier::external_body]
pub(crate) fn str_eq(a: &str, b: &str) -> (same: bool)
    ensures
        same == (a@ == b@),
{
    a == b
}

/// The text of an optional string.
pub open spec fn opt_text(text: Option<String>) -> Option<Seq<char>> {
    match text {
        Some(s) => Some(s@),
        None => None,
    }
}

} // verus!
