//! Searching text with a regular expression.

use vstd::prelude::*;
use regex::Regex;

verus! {

/// What the first match of the regular expression `pattern` in `text`
/// captures: one entry for each group of the pattern, the whole match
/// first and then the groups by their opening parenthesis, each with the
/// text it matched or `None` where it took no part in the match. `None`
/// where `pattern` is no regular expression or matches nowhere in `text`.
pub uninterp spec fn first_match(pattern: Seq<char>, text: Seq<char>) -> Option<
    Seq<Option<Seq<char>>>,
>;

/// Compiles `pattern` with `Regex::new` and searches `text` with
/// `Regex::captures`, which reports the leftmost match and its groups; the
/// groups are handed on as owned strings in the order of `Captures::iter`.
/// Nothing is claimed of the outcome but that it depends on the pattern and
/// the text alone.
#[verifier::external_body]
pub(crate) fn captures(pattern: &str, text: &str) -> (groups: Option<Vec<Option<String>>>)
    ensures
        groups.deep_view() == first_match(pattern@, text@),
{
    match Regex::new(pattern) {
        Ok(re) => re.captures(text).map(
            |caps| caps.iter().map(|group| group.map(|m| m.as_str().to_string())).collect(),
        ),
        Err(_) => None,
    }
}

} // verus!
