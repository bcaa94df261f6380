//! Text primitives of the standard library that the rest of the crate
//! relies on. Their contracts are taken on trust from the standard
//! library's documentation; everything built on them is verified.

use vstd::prelude::*;

verus! {

/// The upper-case form that `str::to_uppercase` gives a text. The mapping
/// follows the Unicode tables of the standard library and is not spelled
/// out here; it depends on the text alone.
pub uninterp spec fn uppercase_of(text: Seq<char>) -> Seq<char>;

/// Calls `str::to_uppercase`. Trusted: the result is what the standard
/// library computes, which this crate only names.
#[verifier::external_body]
pub(crate) fn to_uppercase(text: &str) -> (upper: String)
    ensures
        upper@ == uppercase_of(text@),
{
    text.to_uppercase()
}

/// Calls `String::push`. Trusted: the character is appended at the end and
/// nothing else changes.
#[verifier::external_body]
pub(crate) fn push_char(text: &mut String, c: char)
    ensures
        final(text)@ == old(text)@.push(c),
{
    text.push(c)
}

} // verus!
