//! Regular-expression matching, delegated to the `regex` crate.
//!
//! The verifier does not look inside the regex engine. What a pattern compiles
//! to, and what a compiled pattern matches, are named here as uninterpreted
//! functions; the contracts of the rule engine are stated over those names.

use regex::Regex;
use vstd::prelude::*;

verus! {

/// A compiled regular expression of the `regex` crate; opaque to the verifier.
#[verifier::external_type_specification]
#[verifier::external_body]
pub struct ExRegex(regex::Regex);

/// What `Regex::new` makes of a pattern: the compiled expression, or `None`
/// where the pattern is rejected.
pub uninterp spec fn compiled(pattern: Seq<char>) -> Option<Regex>;

/// Whether `Regex::is_match` finds a match of `regex` anywhere in `text`.
pub uninterp spec fn finds_match(regex: Regex, text: Seq<char>) -> bool;

/// How many successive non-overlapping matches `Regex::find_iter` yields for
/// `regex` in `text`.
pub uninterp spec fn match_count(regex: Regex, text: Seq<char>) -> nat;

/// Calls `Regex::new`. The result is the compiled expression for a pattern the
/// crate accepts and `None` for one it rejects; the same pattern always gives
/// the same answer.
#[verifier::external_body]
pub(crate) fn compile(pattern: &str) -> (out: Option<Regex>)
    ensures
        out == compiled(pattern@),
{
    Regex::new(pattern).ok()
}

/// Calls `Regex::is_match`, which searches the whole of `text` from its start
/// and never panics.
#[verifier::external_body]
pub(crate) fn is_match(regex: &Regex, text: &str) -> (out: bool)
    ensures
        out == finds_match(*regex, text@),
{
    regex.is_match(text)
}

/// Calls `Regex::find_iter` and counts the matches it yields.
#[verifier::external_body]
pub(crate) fn count_matches(regex: &Regex, text: &str) -> (out: usize)
    ensures
        out == match_count(*regex, text@),
{
    regex.find_iter(text).count()
}

} // verus!
