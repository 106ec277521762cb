//! Regular expressions, as the `regex` crate runs them.

use regex::Regex;
use vstd::prelude::*;

verus! {

/// What `regex::Regex::new` reports for a pattern: `None` where it compiles,
/// else the text of the error.
pub uninterp spec fn pattern_error(pattern: Seq<char>) -> Option<Seq<char>>;

/// What `regex::Regex::find` returns for a pattern that compiles: the leftmost
/// match in `text` as its start and end (byte offsets) and the text matched.
pub uninterp spec fn leftmost_match(pattern: Seq<char>, text: Seq<char>) -> Option<
    (usize, usize, Seq<char>),
>;

/// What `regex::Regex::find_iter` yields for a pattern that compiles: the
/// successive matches that do not overlap, each as `leftmost_match` gives one.
pub uninterp spec fn every_match(pattern: Seq<char>, text: Seq<char>) -> Seq<
    (usize, usize, Seq<char>),
>;

/// One match as contracts see it.
pub open spec fn found_view(f: (usize, usize, String)) -> (usize, usize, Seq<char>) {
    (f.0, f.1, f.2@)
}

/// A list of matches as contracts see it.
pub open spec fn founds_view(v: Seq<(usize, usize, String)>) -> Seq<(usize, usize, Seq<char>)> {
    v.map_values(|f: (usize, usize, String)| found_view(f))
}

/// Compiles `pattern` with `regex::Regex::new` and searches `text` with
/// `regex::Regex::find`. The contract names both results. It claims besides
/// that a match ends no earlier than it starts, and that a match that starts
/// at offset 0 is a prefix of `text`: `Match::as_str` is the slice of the
/// haystack between the two offsets.
#[verifier::external_body]
pub(crate) fn find_first(pattern: &str, text: &str) -> (res: Result<
    Option<(usize, usize, String)>,
    String,
>)
    ensures
        match res {
            Ok(found) => pattern_error(pattern@) is None && match found {
                Some(f) => leftmost_match(pattern@, text@) == Some(found_view(f)) && f.0 <= f.1
                    && (f.0 == 0 ==> f.2@.is_prefix_of(text@)),
                None => leftmost_match(pattern@, text@) is None,
            },
            Err(msg) => pattern_error(pattern@) == Some(msg@),
        },
{
    match Regex::new(pattern) {
        Ok(re) => Ok(re.find(text).map(|m| (m.start(), m.end(), m.as_str().to_string()))),
        Err(e) => Err(e.to_string()),
    }
}

/// Compiles `pattern` with `regex::Regex::new` and collects what
/// `regex::Regex::find_iter` yields on `text`. The contract names both results.
#[verifier::external_body]
pub(crate) fn find_every(pattern: &str, text: &str) -> (res: Result<
    Vec<(usize, usize, String)>,
    String,
>)
    ensures
        match res {
            Ok(found) => pattern_error(pattern@) is None && founds_view(found@) == every_match(
                pattern@,
                text@,
            ),
            Err(msg) => pattern_error(pattern@) == Some(msg@),
        },
{
    match Regex::new(pattern) {
        Ok(re) => Ok(
            re.find_iter(text).map(|m| (m.start(), m.end(), m.as_str().to_string())).collect(),
        ),
        Err(e) => Err(e.to_string()),
    }
}

} // verus!
