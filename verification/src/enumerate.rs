//! Listing the matches of a pattern in a subject.

use vstd::prelude::*;
use crate::backend::{
    found_view, groups_in, matches_in, regex_captures, regex_captures_iter, regex_diagnostic,
    regex_group_names, whole_span,
};
use crate::pattern::{compile, labels_of, CompileError, Pattern};
use crate::record::{
    get_match_result, captures_of, faithful, from_groups, lemma_first_capture, CaptureView, Groups,
    MatchRecord,
};
use crate::text::{bytes_of, span_in, texts_of};

verus! {

/// The records of a list of matches, as mathematical values.
pub open spec fn records_view(records: Seq<MatchRecord>) -> Seq<Seq<CaptureView>> {
    Seq::new(records.len(), |i: int| records[i]@)
}

/// The records of the matches whose groups have the ranges `found`.
pub open spec fn records_of(
    labels: Seq<Seq<char>>,
    found: Seq<Seq<Option<(usize, usize)>>>,
    bytes: Seq<u8>,
) -> Seq<Seq<CaptureView>> {
    Seq::new(found.len(), |i: int| captures_of(labels, found[i], bytes))
}

/// The records of all matches of a pattern in a subject, in the order in
/// which the engine finds them.
pub open spec fn matches_of(pattern: Seq<char>, subject: Seq<char>) -> Seq<Seq<CaptureView>> {
    records_of(
        labels_of(regex_group_names(pattern)),
        regex_captures(pattern, subject),
        bytes_of(subject),
    )
}

/// The records lie one after the other in the subject: each starts with its
/// whole match, which lies in the subject between characters, and no match
/// starts before the one in front of it has ended.
pub open spec fn tiles(records: Seq<Seq<CaptureView>>, bytes: Seq<u8>) -> bool {
    &&& forall|i: int|
        0 <= i < records.len() ==> {
            &&& (#[trigger] records[i]).len() > 0
            &&& span_in(bytes, records[i][0].start, records[i][0].end)
        }
    &&& forall|i: int|
        0 <= i < records.len() - 1 ==> (#[trigger] records[i])[0].end <= records[i + 1][0].start
}

/// The place behind each match lies further on than the place behind the
/// match in front of it, also where a match is empty.
pub open spec fn advances(records: Seq<Seq<CaptureView>>) -> bool {
    forall|i: int|
        0 <= i < records.len() - 1 ==> (#[trigger] records[i])[0].end < records[i + 1][0].end
}

/// Matches that the engine reports in order give records that tile the
/// subject and advance.
pub proof fn lemma_records_tile(
    labels: Seq<Seq<char>>,
    found: Seq<Seq<Option<(usize, usize)>>>,
    bytes: Seq<u8>,
)
    requires
        matches_in(found, labels.len() as int, bytes),
    ensures
        tiles(records_of(labels, found, bytes), bytes),
        advances(records_of(labels, found, bytes)),
        forall|i: int|
            0 <= i < found.len() ==> {
                &&& (#[trigger] records_of(labels, found, bytes)[i])[0].start == whole_span(
                    found[i],
                ).0
                &&& records_of(labels, found, bytes)[i][0].end == whole_span(found[i]).1
            },
{
    let records = records_of(labels, found, bytes);
    assert forall|i: int| 0 <= i < found.len() implies {
        &&& (#[trigger] records[i]).len() > 0
        &&& span_in(bytes, records[i][0].start, records[i][0].end)
        &&& records[i][0].start == whole_span(found[i]).0
        &&& records[i][0].end == whole_span(found[i]).1
    } by {
        assert(found[i].len() == labels.len());
        assert(found[i][0] is Some);
        assert(groups_in(found[i], bytes));
        lemma_first_capture(labels, found[i], bytes);
    }
    assert forall|i: int| 0 <= i < records.len() - 1 implies (#[trigger] records[i])[0].end
        <= records[i + 1][0].start && records[i][0].end < records[i + 1][0].end by {
        assert(whole_span(found[i]).1 <= whole_span(found[i + 1]).0);
        assert(records[i + 1][0].start == whole_span(found[i + 1]).0);
    }
}

/// Builds the records of a list of matches from the ranges of their groups.
pub fn build_records(labels: &Vec<String>, found: &Vec<Groups>, subject: &str) -> (records: Vec<
    MatchRecord,
>)
    requires
        forall|i: int|
            0 <= i < found@.len() ==> {
                &&& (#[trigger] found@[i])@.len() <= labels@.len()
                &&& groups_in(found@[i]@, bytes_of(subject@))
            },
    ensures
        records_view(records@) == records_of(
            texts_of(labels@),
            found_view(found@),
            bytes_of(subject@),
        ),
        records@.len() == found@.len(),
        forall|i: int|
            0 <= i < records@.len() ==> {
                &&& faithful((#[trigger] records@[i])@, bytes_of(subject@))
                &&& from_groups(records@[i]@, texts_of(labels@), found@[i]@)
            },
{
    let mut records: Vec<MatchRecord> = Vec::new();
    let mut index: usize = 0;
    while index < found.len()
        invariant
            index <= found@.len(),
            records@.len() == index,
            forall|i: int|
                0 <= i < found@.len() ==> {
                    &&& (#[trigger] found@[i])@.len() <= labels@.len()
                    &&& groups_in(found@[i]@, bytes_of(subject@))
                },
            forall|i: int|
                0 <= i < index ==> {
                    &&& (#[trigger] records@[i])@ == captures_of(
                        texts_of(labels@),
                        found@[i]@,
                        bytes_of(subject@),
                    )
                    &&& faithful(records@[i]@, bytes_of(subject@))
                    &&& from_groups(records@[i]@, texts_of(labels@), found@[i]@)
                },
        decreases found@.len() - index,
    {
        assert(groups_in(found@[index as int]@, bytes_of(subject@)));
        let record = get_match_result(labels, &found[index], subject);
        records.push(record);
        index += 1;
    }
    assert(records_view(records@) =~= records_of(
        texts_of(labels@),
        found_view(found@),
        bytes_of(subject@),
    ));
    records
}

/// Lists the matches of a compiled pattern in a subject, from left to right.
///
/// Each record holds the whole match first and then one capture for every
/// group that took part, none for the others; every capture's text is the
/// subject's text in its range; and the matches tile the subject and advance.
pub fn enumerate(pattern: &Pattern, subject: &str) -> (records: Vec<MatchRecord>)
    ensures
        records_view(records@) == matches_of(pattern.source(), subject@),
        tiles(records_view(records@), bytes_of(subject@)),
        advances(records_view(records@)),
        records@.len() == regex_captures(pattern.source(), subject@).len(),
        forall|i: int|
            0 <= i < records@.len() ==> {
                &&& faithful((#[trigger] records@[i])@, bytes_of(subject@))
                &&& from_groups(
                    records@[i]@,
                    labels_of(regex_group_names(pattern.source())),
                    regex_captures(pattern.source(), subject@)[i],
                )
            },
{
    let found = regex_captures_iter(pattern.matcher(), subject);
    let labels = pattern.group_labels();
    proof {
        let names = regex_group_names(pattern.source());
        assert(labels_of(names).len() == names.len());
        lemma_records_tile(texts_of(labels@), found_view(found@), bytes_of(subject@));
        assert(found_view(found@).len() == found@.len());
        assert forall|i: int| 0 <= i < found@.len() implies {
            &&& (#[trigger] found@[i])@.len() <= labels@.len()
            &&& groups_in(found@[i]@, bytes_of(subject@))
        } by {
            assert(found_view(found@)[i] == found@[i]@);
        }
    }
    let records = build_records(labels, &found, subject);
    proof {
        assert forall|i: int| 0 <= i < records@.len() implies from_groups(
            (#[trigger] records@[i])@,
            labels_of(regex_group_names(pattern.source())),
            regex_captures(pattern.source(), subject@)[i],
        ) by {
            assert(found_view(found@).len() == found@.len());
            assert(found_view(found@)[i] == found@[i]@);
        }
    }
    records
}

/// Compiles a pattern and lists its matches in a subject.
///
/// A text that the engine refuses as a pattern gives the error, whatever the
/// subject; any other text gives the records of all its matches.
pub fn list_matches(pattern: &str, subject: &str) -> (listed: Result<
    Vec<MatchRecord>,
    CompileError,
>)
    ensures
        match listed {
            Ok(records) => {
                &&& regex_diagnostic(pattern@) is None
                &&& records_view(records@) == matches_of(pattern@, subject@)
                &&& records@.len() == regex_captures(pattern@, subject@).len()
                &&& tiles(records_view(records@), bytes_of(subject@))
                &&& advances(records_view(records@))
                &&& forall|i: int|
                    0 <= i < records@.len() ==> {
                        &&& faithful((#[trigger] records@[i])@, bytes_of(subject@))
                        &&& from_groups(
                            records@[i]@,
                            labels_of(regex_group_names(pattern@)),
                            regex_captures(pattern@, subject@)[i],
                        )
                    }
            },
            Err(error) => regex_diagnostic(pattern@) == Some(error.message@),
        },
{
    match compile(pattern) {
        Ok(compiled) => Ok(enumerate(&compiled, subject)),
        Err(error) => Err(error),
    }
}

} // verus!
