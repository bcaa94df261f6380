//! The regular-expression engine behind tag matching and query lexing.
//!
//! The engine is the `regex` crate. Its verdicts are far too involved to
//! restate, so each one is given a name and the library's contracts speak
//! of those names. Nothing in this module is proved: it is the trusted
//! boundary between the verified logic and the engine.

use vstd::prelude::*;

verus! {

/// Whether `regex::Regex::new` compiles `pattern` successfully.
pub uninterp spec fn regex_accepts(pattern: Seq<char>) -> bool;

/// Whether the regex compiled from `pattern` matches anywhere in `text`, as
/// `regex::Regex::is_match` reports it.
pub uninterp spec fn regex_is_match(pattern: Seq<char>, text: Seq<char>) -> bool;

/// `text` after `regex::Regex::replace_all` has replaced every
/// non-overlapping match of `pattern` by what the replacement `with`
/// stands for.
pub uninterp spec fn regex_replace_all(pattern: Seq<char>, text: Seq<char>, with: Seq<char>) -> Seq<
    char,
>;

/// The successive non-overlapping matches of `pattern` in `text`, each as the
/// text it covers, in the order `regex::Regex::captures_iter` yields them.
pub uninterp spec fn regex_matches(pattern: Seq<char>, text: Seq<char>) -> Seq<Seq<char>>;

/// Calls `regex::Regex::new` and reports whether the pattern compiled.
/// Trusted: the answer is the engine's.
#[verifier::external_body]
pub(crate) fn accepts(pattern: &str) -> (ok: bool)
    ensures
        ok == regex_accepts(pattern@),
{
    regex::Regex::new(pattern).is_ok()
}

/// Compiles `pattern` with `regex::Regex::new` and calls
/// `regex::Regex::is_match` on `text`. Trusted: the answer is the engine's.
/// A pattern that does not compile is excluded, since unwrapping the
/// compilation would panic.
#[verifier::external_body]
pub(crate) fn is_match(pattern: &str, text: &str) -> (hit: bool)
    requires
        regex_accepts(pattern@),
    ensures
        hit == regex_is_match(pattern@, text@),
{
    regex::Regex::new(pattern).unwrap().is_match(text)
}

/// Compiles `pattern` with `regex::Regex::new` and calls
/// `regex::Regex::replace_all` on `text` with the replacement `with`.
/// Trusted: the result is the engine's. A pattern that does not compile is
/// excluded, since unwrapping the compilation would panic.
#[verifier::external_body]
pub(crate) fn replace_all(pattern: &str, text: &str, with: &str) -> (replaced: String)
    requires
        regex_accepts(pattern@),
    ensures
        replaced@ == regex_replace_all(pattern@, text@, with@),
{
    regex::Regex::new(pattern).unwrap().replace_all(text, with).into_owned()
}

/// Compiles `pattern` with `regex::Regex::new`, calls
/// `regex::Regex::captures_iter` on `text` and collects the whole-match
/// text of each capture. Trusted: the matches are the engine's, in its
/// order. A pattern that does not compile is excluded, since unwrapping the
/// compilation would panic.
#[verifier::external_body]
pub(crate) fn all_matches(pattern: &str, text: &str) -> (found: Vec<String>)
    requires
        regex_accepts(pattern@),
    ensures
        found.deep_view() == regex_matches(pattern@, text@),
{
    regex::Regex::new(pattern).unwrap().captures_iter(text).map(|capture| capture[0].to_string()).collect()
}

} // verus!
