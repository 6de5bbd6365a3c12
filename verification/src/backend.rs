//! The regular-expression engine that does the matching: the `regex` crate.
//!
//! Nothing in this file is proved. Each contract here restates what the
//! engine's documentation and source say of the function that is called, and
//! the rest of the library is proved from these contracts.

use vstd::prelude::*;
use crate::text::{bytes_of, span_in};

verus! {

/// A compiled pattern of the engine, `regex::Regex`.
#[verifier::external_type_specification]
#[verifier::external_body]
pub struct ExRegex(regex::Regex);

/// The error with which the engine refuses a pattern, `regex::Error`.
#[verifier::external_type_specification]
#[verifier::external_body]
pub struct ExRegexError(regex::Error);

/// The pattern text that a compiled pattern was made from (`Regex::as_str`).
pub uninterp spec fn regex_source(re: regex::Regex) -> Seq<char>;

/// What `Regex::new` says of a pattern text: `None` where it compiles, else
/// the text of the error.
pub uninterp spec fn regex_diagnostic(pattern: Seq<char>) -> Option<Seq<char>>;

/// The text that an error of the engine prints (its `Display`).
pub uninterp spec fn regex_error_text(error: regex::Error) -> Seq<char>;

/// The names of a pattern's groups, as `Regex::capture_names` yields them: one
/// entry per group, the whole match first, `None` for a group without a name.
pub uninterp spec fn regex_group_names(pattern: Seq<char>) -> Seq<Option<Seq<char>>>;

/// The matches of a pattern in a haystack, as `Regex::captures_iter` yields
/// them: for each match the byte range of every group, `None` for a group that
/// took no part.
pub uninterp spec fn regex_captures(pattern: Seq<char>, haystack: Seq<char>) -> Seq<
    Seq<Option<(usize, usize)>>,
>;

/// The byte range of a match as a whole: that of its first group.
pub open spec fn whole_span(groups: Seq<Option<(usize, usize)>>) -> (int, int) {
    match groups[0] {
        Some((start, end)) => (start as int, end as int),
        None => (0, 0),
    }
}

/// Every group of a match that took part lies in the haystack, between characters.
pub open spec fn groups_in(groups: Seq<Option<(usize, usize)>>, bytes: Seq<u8>) -> bool {
    forall|g: int|
        0 <= g < groups.len() ==> match #[trigger] groups[g] {
            Some((start, end)) => span_in(bytes, start as int, end as int),
            None => true,
        }
}

/// What the engine promises of the matches it reports in one haystack: each
/// has one entry per group of the pattern, the first of them present; every
/// range lies in the haystack, between characters; and each match starts no
/// earlier than the one before it ends, and ends later than it.
pub open spec fn matches_in(
    found: Seq<Seq<Option<(usize, usize)>>>,
    group_count: int,
    bytes: Seq<u8>,
) -> bool {
    &&& forall|i: int|
        0 <= i < found.len() ==> {
            &&& 0 < (#[trigger] found[i]).len() == group_count
            &&& found[i][0] is Some
            &&& groups_in(found[i], bytes)
        }
    &&& forall|i: int|
        0 <= i < found.len() - 1 ==> {
            &&& whole_span(#[trigger] found[i]).1 <= whole_span(found[i + 1]).0
            &&& whole_span(found[i]).1 < whole_span(found[i + 1]).1
        }
}

/// The names in a list of optional strings, as mathematical values.
pub open spec fn names_view(names: Seq<Option<String>>) -> Seq<Option<Seq<char>>> {
    Seq::new(
        names.len(),
        |i: int|
            match names[i] {
                Some(name) => Some(name@),
                None => None,
            },
    )
}

/// The ranges in a list of matches, as mathematical values.
pub open spec fn found_view(found: Seq<Vec<Option<(usize, usize)>>>) -> Seq<
    Seq<Option<(usize, usize)>>,
> {
    Seq::new(found.len(), |i: int| found[i]@)
}

/// Calls `Regex::new`. The engine accepts or refuses a pattern by its text
/// alone; a pattern it accepts keeps that text.
#[verifier::external_body]
pub(crate) fn regex_new(pattern: &str) -> (made: Result<regex::Regex, regex::Error>)
    ensures
        match made {
            Ok(re) => regex_diagnostic(pattern@) is None && regex_source(re) == pattern@,
            Err(error) => regex_diagnostic(pattern@) == Some(regex_error_text(error)),
        },
{
    regex::Regex::new(pattern)
}

/// Calls `Regex::as_str`, which gives the text that the pattern was made from.
#[verifier::external_body]
pub(crate) fn regex_as_str(re: &regex::Regex) -> (source: &str)
    ensures
        source@ == regex_source(*re),
{
    re.as_str()
}

/// Prints an error of the engine through its `Display`.
#[verifier::external_body]
pub(crate) fn regex_error_message(error: &regex::Error) -> (message: String)
    ensures
        message@ == regex_error_text(*error),
{
    error.to_string()
}

/// Calls `Regex::capture_names` and collects what it yields. There is at
/// least one group, and the first, the whole match, has no name.
#[verifier::external_body]
pub(crate) fn regex_capture_names(re: &regex::Regex) -> (names: Vec<Option<String>>)
    ensures
        names_view(names@) == regex_group_names(regex_source(*re)),
        names@.len() >= 1,
        names@[0] is None,
{
    re.capture_names().map(|name| name.map(String::from)).collect()
}

/// Calls `Regex::captures_iter` and collects, for each match it yields, the
/// start and end of every group that `Captures::iter` yields. The engine
/// yields one entry per group of the pattern, the whole match always among
/// them; its offsets fall between characters of the haystack; its matches do
/// not overlap; and its iterator moves on with every match, so that each
/// match ends later than the one before it.
#[verifier::external_body]
pub(crate) fn regex_captures_iter(re: &regex::Regex, haystack: &str) -> (found: Vec<
    Vec<Option<(usize, usize)>>,
>)
    ensures
        found_view(found@) == regex_captures(regex_source(*re), haystack@),
        matches_in(
            found_view(found@),
            regex_group_names(regex_source(*re)).len() as int,
            bytes_of(haystack@),
        ),
{
    re.captures_iter(haystack).map(
        |caps| caps.iter().map(|group| group.map(|m| (m.start(), m.end()))).collect(),
    ).collect()
}

} // verus!
