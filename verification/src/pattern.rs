//! Matching a line against a regular expression.

use vstd::prelude::*;

verus! {

/// What became of one attempt to match a pattern against a text.
#[derive(Clone, Debug, PartialEq, Eq)]
pub enum Scan {
    /// The pattern is no regular expression.
    Invalid,
    /// The pattern matches nowhere in the text.
    Miss,
    /// The leftmost match: what each capture group took, group 0 being the
    /// whole match; `None` for a group that took no part.
    Hit(Vec<Option<String>>),
}

/// Whether `pattern` compiles as a regular expression.
pub uninterp spec fn pattern_is_valid(pattern: Seq<char>) -> bool;

/// For a valid `pattern`, what its capture groups take in the leftmost match
/// within `text`, or `None` where it matches nowhere.
pub uninterp spec fn pattern_groups(pattern: Seq<char>, text: Seq<char>) -> Option<
    Seq<Option<Seq<char>>>,
>;

/// The groups of a hit, each by its characters.
pub open spec fn group_views(groups: Seq<Option<String>>) -> Seq<Option<Seq<char>>> {
    Seq::new(
        groups.len(),
        |i: int|
            match groups[i] {
                Some(g) => Some(g@),
                None => None,
            },
    )
}

/// Compiles `pattern` with `regex::Regex::new` and searches `text` with
/// `Regex::captures`. Trusted: the outcome is the one that the two names above
/// stand for, so it depends on the pattern and the text alone. `Invalid` comes
/// exactly when compiling fails; on a hit the groups are handed over in the
/// order of `Captures::iter`.
#[verifier::external_body]
pub(crate) fn scan(pattern: &str, text: &str) -> (out: Scan)
    ensures
        out is Invalid <==> !pattern_is_valid(pattern@),
        out is Miss ==> pattern_groups(pattern@, text@) is None,
        out matches Scan::Hit(groups) ==> pattern_groups(pattern@, text@) == Some(
            group_views(groups@),
        ),
{
    match regex::Regex::new(pattern) {
        Err(_) => Scan::Invalid,
        Ok(re) => match re.captures(text) {
            None => Scan::Miss,
            Some(caps) => Scan::Hit(
                caps.iter().map(|m| m.map(|m| m.as_str().to_string())).collect(),
            ),
        },
    }
}

} // verus!
