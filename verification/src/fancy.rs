//! Listing and rewriting with the engine that knows look-around and
//! backreferences. That engine may give up on a match, and what it reports
//! is checked before it is used.

use vstd::prelude::*;
use vstd::string::*;
use vstd::utf8::*;
use crate::backend::{found_view, groups_in, matches_in, whole_span};
use crate::enumerate::{
    advances, build_records, lemma_records_tile, records_of, records_view, tiles,
};
use crate::fancy_backend::{
    fancy_as_str, fancy_capture_names, fancy_captures, fancy_captures_iter, fancy_diagnostic,
    fancy_error_message, fancy_group_names, fancy_new, fancy_source,
};
use crate::pattern::{labels_of, make_labels, CompileError};
use crate::record::{faithful, CaptureView, Groups, MatchRecord};
use crate::replace::{failed_with, replace_matches, returns_whole_match, rewritten};
use crate::text::{bytes_of, span_in, text_between, texts_of};

verus! {

/// Why the matches of a compiled pattern could not be listed.
#[derive(Clone, Debug, PartialEq, Eq)]
pub enum SearchError {
    /// The engine gave up on a match; this is what it says of it.
    Backend(String),
    /// The engine reported ranges that do not lie in order in the subject.
    Malformed,
}

/// Why the matches of a pattern text could not be listed.
#[derive(Clone, Debug, PartialEq, Eq)]
pub enum FancyError {
    /// The pattern was refused.
    Compile(CompileError),
    /// The search failed.
    Search(SearchError),
}

/// Why a subject was not rewritten.
#[derive(Debug)]
pub enum FancyReplaceError<E> {
    /// The pattern was refused.
    Compile(CompileError),
    /// The search failed.
    Search(SearchError),
    /// The transform failed on a match; this is its error.
    Transform(E),
}

/// A compiled pattern of the second engine, with the labels of its groups.
pub struct FancyPattern {
    re: fancy_regex::Regex,
    labels: Vec<String>,
}

impl FancyPattern {
    /// The labels kept with the pattern are those of the groups of its text.
    #[verifier::type_invariant]
    spec fn labelled(self) -> bool {
        texts_of(self.labels@) == labels_of(fancy_group_names(fancy_source(self.re)))
    }

    /// The text that the pattern was compiled from.
    pub closed spec fn source(&self) -> Seq<char> {
        fancy_source(self.re)
    }

    /// The text that the pattern was compiled from.
    pub fn as_str(&self) -> (text: &str)
        ensures
            text@ == self.source(),
    {
        fancy_as_str(&self.re)
    }

    /// The labels of the pattern's groups, the whole match first: each
    /// group's name, or its index in decimal where it has none.
    pub fn group_labels(&self) -> (labels: &Vec<String>)
        ensures
            texts_of(labels@) == labels_of(fancy_group_names(self.source())),
    {
        proof {
            use_type_invariant(self);
        }
        &self.labels
    }

    fn matcher(&self) -> (re: &fancy_regex::Regex)
        ensures
            fancy_source(*re) == self.source(),
    {
        &self.re
    }
}

/// The engine's answer can be built on: it found all matches, and they lie
/// in order in the subject.
pub open spec fn fancy_usable(pattern: Seq<char>, subject: Seq<char>) -> bool {
    &&& fancy_captures(pattern, subject) is Ok
    &&& matches_in(
        fancy_captures(pattern, subject)->Ok_0,
        fancy_group_names(pattern).len() as int,
        bytes_of(subject),
    )
}

/// The records of all matches of a pattern in a subject, where the engine's
/// answer can be built on.
pub open spec fn fancy_matches_of(pattern: Seq<char>, subject: Seq<char>) -> Seq<
    Seq<CaptureView>,
> {
    records_of(
        labels_of(fancy_group_names(pattern)),
        fancy_captures(pattern, subject)->Ok_0,
        bytes_of(subject),
    )
}

/// What a search says of a pattern and a subject: the records of the matches
/// where the engine's answer can be built on, else why it cannot.
pub open spec fn search_outcome(
    pattern: Seq<char>,
    subject: Seq<char>,
    listed: Result<Vec<MatchRecord>, SearchError>,
) -> bool {
    match listed {
        Ok(records) => {
            &&& fancy_usable(pattern, subject)
            &&& records_view(records@) == fancy_matches_of(pattern, subject)
            &&& tiles(records_view(records@), bytes_of(subject))
            &&& advances(records_view(records@))
            &&& forall|i: int|
                0 <= i < records@.len() ==> faithful((#[trigger] records@[i])@, bytes_of(subject))
        },
        Err(SearchError::Backend(message)) => fancy_captures(pattern, subject) == Err::<
            Seq<Seq<Option<(usize, usize)>>>,
            Seq<char>,
        >(message@),
        Err(SearchError::Malformed) => fancy_captures(pattern, subject) is Ok && !fancy_usable(
            pattern,
            subject,
        ),
    }
}

/// Compiles a pattern with the second engine.
pub fn compile_fancy(pattern: &str) -> (made: Result<FancyPattern, CompileError>)
    ensures
        match made {
            Ok(compiled) => fancy_diagnostic(pattern@) is None && compiled.source() == pattern@,
            Err(error) => fancy_diagnostic(pattern@) == Some(error.message@),
        },
{
    match fancy_new(pattern) {
        Ok(re) => {
            let names = fancy_capture_names(&re);
            let labels = make_labels(&names);
            Ok(FancyPattern { re, labels })
        },
        Err(error) => Err(CompileError { message: fancy_error_message(&error) }),
    }
}

/// Tells whether every group of a match that took part lies in the subject,
/// between characters.
pub fn groups_lie_in(groups: &Groups, subject: &str) -> (ok: bool)
    ensures
        ok == groups_in(groups@, bytes_of(subject@)),
{
    let len = subject.as_bytes().len();
    let mut index: usize = 0;
    while index < groups.len()
        invariant
            index <= groups@.len(),
            len == bytes_of(subject@).len(),
            forall|g: int|
                0 <= g < index ==> match #[trigger] groups@[g] {
                    Some((start, end)) => span_in(bytes_of(subject@), start as int, end as int),
                    None => true,
                },
        decreases groups@.len() - index,
    {
        match groups[index] {
            Some((start, end)) => {
                if !(start <= end && end <= len && subject.is_char_boundary(start)
                    && subject.is_char_boundary(end)) {
                    assert(groups@[index as int] == Some((start, end)));
                    return false;
                }
            },
            None => {},
        }
        index += 1;
    }
    true
}

/// Tells whether a list of matches is one that can be built on: each match
/// has `group_count` groups, at least one, and the first took part; every
/// range lies in the subject, between characters; and each match starts no
/// earlier than the one before it ends, and ends later than it.
pub fn in_order(found: &Vec<Groups>, group_count: usize, subject: &str) -> (ok: bool)
    ensures
        ok == matches_in(found_view(found@), group_count as int, bytes_of(subject@)),
{
    let ghost views = found_view(found@);
    let ghost bytes = bytes_of(subject@);
    let mut last_end: usize = 0;
    let mut index: usize = 0;
    while index < found.len()
        invariant
            index <= found@.len(),
            views == found_view(found@),
            bytes == bytes_of(subject@),
            forall|i: int|
                0 <= i < index ==> {
                    &&& 0 < (#[trigger] views[i]).len() == group_count
                    &&& views[i][0] is Some
                    &&& groups_in(views[i], bytes)
                },
            forall|i: int|
                0 <= i < index - 1 ==> {
                    &&& whole_span(#[trigger] views[i]).1 <= whole_span(views[i + 1]).0
                    &&& whole_span(views[i]).1 < whole_span(views[i + 1]).1
                },
            index > 0 ==> last_end as int == whole_span(views[index - 1]).1,
        decreases found@.len() - index,
    {
        let groups = &found[index];
        assert(views[index as int] == groups@);
        if groups.len() == 0 || groups.len() != group_count {
            return false;
        }
        let (start, end) = match groups[0] {
            Some(span) => span,
            None => {
                return false;
            },
        };
        if !groups_lie_in(groups, subject) {
            return false;
        }
        if index > 0 && !(last_end <= start && last_end < end) {
            proof {
                let before = index - 1;
                assert(whole_span(views[before]).1 == last_end);
                assert(views[before + 1] == groups@);
            }
            return false;
        }
        last_end = end;
        index += 1;
    }
    true
}

/// Lists the matches of a compiled pattern in a subject, from left to right.
///
/// Where the engine gives up on a match, the search ends with what it says;
/// where it reports ranges that do not lie in order, the search ends too.
pub fn enumerate_fancy(pattern: &FancyPattern, subject: &str) -> (listed: Result<
    Vec<MatchRecord>,
    SearchError,
>)
    ensures
        search_outcome(pattern.source(), subject@, listed),
{
    match fancy_captures_iter(pattern.matcher(), subject) {
        Ok(found) => {
            let labels = pattern.group_labels();
            proof {
                assert(labels_of(fancy_group_names(pattern.source())).len() == fancy_group_names(
                    pattern.source(),
                ).len());
                assert(texts_of(labels@).len() == labels@.len());
            }
            if in_order(&found, labels.len(), subject) {
                proof {
                    lemma_records_tile(texts_of(labels@), found_view(found@), bytes_of(subject@));
                    assert(found_view(found@).len() == found@.len());
                    assert forall|i: int| 0 <= i < found@.len() implies {
                        &&& (#[trigger] found@[i])@.len() <= labels@.len()
                        &&& groups_in(found@[i]@, bytes_of(subject@))
                    } by {
                        assert(found_view(found@)[i] == found@[i]@);
                    }
                }
                Ok(build_records(labels, &found, subject))
            } else {
                Err(SearchError::Malformed)
            }
        },
        Err(error) => Err(SearchError::Backend(fancy_error_message(&error))),
    }
}

/// Compiles a pattern with the second engine and lists its matches in a
/// subject.
pub fn list_matches_fancy(pattern: &str, subject: &str) -> (listed: Result<
    Vec<MatchRecord>,
    FancyError,
>)
    ensures
        match listed {
            Ok(records) => fancy_diagnostic(pattern@) is None && search_outcome(
                pattern@,
                subject@,
                Ok(records),
            ),
            Err(FancyError::Compile(error)) => fancy_diagnostic(pattern@) == Some(error.message@),
            Err(FancyError::Search(error)) => fancy_diagnostic(pattern@) is None
                && search_outcome(pattern@, subject@, Err(error)),
        },
{
    match compile_fancy(pattern) {
        Ok(compiled) => match enumerate_fancy(&compiled, subject) {
            Ok(records) => Ok(records),
            Err(error) => Err(FancyError::Search(error)),
        },
        Err(error) => Err(FancyError::Compile(error)),
    }
}

/// Compiles a pattern with the second engine and rewrites a subject: every
/// match gives way to what the transform returns for its record.
///
/// A refused pattern and a failed search give their error before the
/// transform is called at all. Where the transform fails on a match, its
/// error is returned.
pub fn replace_all_fancy<E, F: Fn(&MatchRecord) -> Result<String, E>>(
    pattern: &str,
    subject: &str,
    transform: F,
) -> (out: Result<String, FancyReplaceError<E>>)
    requires
        forall|record: MatchRecord| record@.len() > 0 ==> call_requires(transform, (&record,)),
    ensures
        match out {
            Ok(text) => {
                &&& fancy_diagnostic(pattern@) is None
                &&& fancy_usable(pattern@, subject@)
                &&& rewritten(transform, fancy_matches_of(pattern@, subject@), subject@, text@)
            },
            Err(FancyReplaceError::Compile(error)) => fancy_diagnostic(pattern@) == Some(error.message@),
            Err(FancyReplaceError::Search(error)) => fancy_diagnostic(pattern@) is None
                && search_outcome(pattern@, subject@, Err(error)),
            Err(FancyReplaceError::Transform(error)) => {
                &&& fancy_diagnostic(pattern@) is None
                &&& fancy_usable(pattern@, subject@)
                &&& failed_with(transform, fancy_matches_of(pattern@, subject@), error)
            },
        },
        fancy_diagnostic(pattern@) is None && fancy_usable(pattern@, subject@) && (
        fancy_captures(pattern@, subject@)->Ok_0.len() == 0 || returns_whole_match(transform))
            ==> out is Ok && out->Ok_0@ == subject@,
{
    match compile_fancy(pattern) {
        Ok(compiled) => match enumerate_fancy(&compiled, subject) {
            Ok(records) => {
                proof {
                    assert forall|i: int| 0 <= i < records@.len() implies call_requires(
                        transform,
                        (&#[trigger] records@[i],),
                    ) by {
                        let record = records@[i];
                        assert(records_view(records@)[i] == record@);
                        assert(record@.len() > 0);
                        assert(call_requires(transform, (&record,)));
                    }
                    assert forall|i: int|
                        0 <= i < records@.len() implies (#[trigger] records_view(
                        records@,
                    )[i])[0].text == text_between(
                        bytes_of(subject@),
                        records_view(records@)[i][0].start,
                        records_view(records@)[i][0].end,
                    ) by {
                        assert(faithful(records@[i]@, bytes_of(subject@)));
                        assert(records_view(records@)[i] == records@[i]@);
                        assert(records@[i]@.len() > 0);
                    }
                    assert(records_view(records@).len() == records@.len());
                }
                match replace_matches(subject, &records, transform) {
                    Ok(text) => Ok(text),
                    Err(error) => Err(FancyReplaceError::Transform(error)),
                }
            },
            Err(error) => Err(FancyReplaceError::Search(error)),
        },
        Err(error) => Err(FancyReplaceError::Compile(error)),
    }
}

} // verus!
