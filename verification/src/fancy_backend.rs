//! A second engine for patterns that need look-around and backreferences:
//! the `fancy_regex` crate.
//!
//! Nothing in this file is proved. The engine may give up on a match, and
//! its documentation promises little of the ranges it reports, so these
//! contracts only give its answers a name; the library checks each answer
//! before it builds on it.

use vstd::prelude::*;
use crate::backend::{found_view, names_view};

verus! {

/// A compiled pattern of the engine, `fancy_regex::Regex`.
#[verifier::external_type_specification]
#[verifier::external_body]
pub struct ExFancyRegex(fancy_regex::Regex);

/// An error of the engine, `fancy_regex::Error`.
#[verifier::external_type_specification]
#[verifier::external_body]
pub struct ExFancyError(fancy_regex::Error);

/// The pattern text that a compiled pattern was made from (`Regex::as_str`).
pub uninterp spec fn fancy_source(re: fancy_regex::Regex) -> Seq<char>;

/// What `Regex::new` says of a pattern text: `None` where it compiles, else
/// the text of the error.
pub uninterp spec fn fancy_diagnostic(pattern: Seq<char>) -> Option<Seq<char>>;

/// The text that an error of the engine prints (its `Display`).
pub uninterp spec fn fancy_error_text(error: fancy_regex::Error) -> Seq<char>;

/// The names of a pattern's groups, as `Regex::capture_names` yields them.
pub uninterp spec fn fancy_group_names(pattern: Seq<char>) -> Seq<Option<Seq<char>>>;

/// What `Regex::captures_iter` yields for a pattern in a haystack: the byte
/// ranges of the groups of every match where the engine finds them all, else
/// the text of the error with which it gave up.
pub uninterp spec fn fancy_captures(pattern: Seq<char>, haystack: Seq<char>) -> Result<
    Seq<Seq<Option<(usize, usize)>>>,
    Seq<char>,
>;

/// Calls `Regex::new`. The engine accepts or refuses a pattern by its text
/// alone; a pattern it accepts keeps that text.
#[verifier::external_body]
pub(crate) fn fancy_new(pattern: &str) -> (made: Result<fancy_regex::Regex, fancy_regex::Error>)
    ensures
        match made {
            Ok(re) => fancy_diagnostic(pattern@) is None && fancy_source(re) == pattern@,
            Err(error) => fancy_diagnostic(pattern@) == Some(fancy_error_text(error)),
        },
{
    fancy_regex::Regex::new(pattern)
}

/// Calls `Regex::as_str`, which gives the text that the pattern was made from.
#[verifier::external_body]
pub(crate) fn fancy_as_str(re: &fancy_regex::Regex) -> (source: &str)
    ensures
        source@ == fancy_source(*re),
{
    re.as_str()
}

/// Prints an error of the engine through its `Display`.
#[verifier::external_body]
pub(crate) fn fancy_error_message(error: &fancy_regex::Error) -> (message: String)
    ensures
        message@ == fancy_error_text(*error),
{
    error.to_string()
}

/// Calls `Regex::capture_names` and collects what it yields.
#[verifier::external_body]
pub(crate) fn fancy_capture_names(re: &fancy_regex::Regex) -> (names: Vec<Option<String>>)
    ensures
        names_view(names@) == fancy_group_names(fancy_source(*re)),
{
    re.capture_names().map(|name| name.map(String::from)).collect()
}

/// Calls `Regex::captures_iter` and collects, for each match it yields, the
/// start and end of every group that `Captures::iter` yields. The first error
/// that the iterator yields ends the search and is returned.
#[verifier::external_body]
pub(crate) fn fancy_captures_iter(re: &fancy_regex::Regex, haystack: &str) -> (found: Result<
    Vec<Vec<Option<(usize, usize)>>>,
    fancy_regex::Error,
>)
    ensures
        match found {
            Ok(ranges) => fancy_captures(fancy_source(*re), haystack@) == Ok::<
                Seq<Seq<Option<(usize, usize)>>>,
                Seq<char>,
            >(found_view(ranges@)),
            Err(error) => fancy_captures(fancy_source(*re), haystack@) == Err::<
                Seq<Seq<Option<(usize, usize)>>>,
                Seq<char>,
            >(fancy_error_text(error)),
        },
{
    re.captures_iter(haystack).map(
        |caps| caps.map(|c| c.iter().map(|group| group.map(|m| (m.start(), m.end()))).collect()),
    ).collect()
}

} // verus!
