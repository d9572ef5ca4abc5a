//! Normalization of player input: trimming surrounding whitespace and
//! lowercasing.  Guesses are stored and compared in this normal form;
//! token texts are compared after lowercasing alone.

use vstd::prelude::*;

verus! {

/// The lowercase form of a character sequence, as `str::to_lowercase`
/// computes it.  The result is a fixed function of the characters; it is
/// given a name here and applied by the contract of [`to_lower`].
pub uninterp spec fn lower_of(s: Seq<char>) -> Seq<char>;

/// The whitespace-trimmed form of a character sequence, as `str::trim`
/// computes it.  The result is a fixed function of the characters; it is
/// given a name here and applied by the contract of [`trim_str`].
pub uninterp spec fn trim_of(s: Seq<char>) -> Seq<char>;

/// The normal form of raw player input: trimmed, then lowercased.
pub open spec fn norm_of(s: Seq<char>) -> Seq<char> {
    lower_of(trim_of(s))
}

/// Relies on str::to_lowercase: the lowercase form of the string, a function
/// of the characters alone.
#[verifier::external_body]
pub(crate) fn to_lower(s: &str) -> (r: String)
    ensures
        r@ == lower_of(s@),
{
    s.to_lowercase()
}

/// Relies on str::trim: the string with leading and trailing whitespace
/// removed, a function of the characters alone.
#[verifier::external_body]
pub(crate) fn trim_str(s: &str) -> (r: String)
    ensures
        r@ == trim_of(s@),
{
    s.trim().to_owned()
}

/// The normal form of raw player input: trimmed, then lowercased.
pub(crate) fn normalize(s: &str) -> (r: String)
    ensures
        r@ == norm_of(s@),
{
    let trimmed = trim_str(s);
    to_lower(trimmed.as_str())
}

} // verus!
