//! The record of one match: its participating capture groups, in the order
//! in which the pattern declares them.

use vstd::prelude::*;
use crate::backend::{groups_in, whole_span};
use crate::text::{bytes_of, slice_between, span_in, text_between, texts_of};

verus! {

/// One capture group of one match.
#[derive(Clone, Debug, PartialEq, Eq)]
pub struct Capture {
    /// The name the pattern gives the group, or its index in decimal.
    pub name: String,
    /// The text the group matched.
    pub text: String,
    /// The byte offset in the subject at which the group's text starts.
    pub start: usize,
    /// The byte offset in the subject just behind the group's text.
    pub end: usize,
}

/// What a capture says, as mathematical values.
pub ghost struct CaptureView {
    pub name: Seq<char>,
    pub text: Seq<char>,
    pub start: int,
    pub end: int,
}

impl View for Capture {
    type V = CaptureView;

    open spec fn view(&self) -> CaptureView {
        CaptureView {
            name: self.name@,
            text: self.text@,
            start: self.start as int,
            end: self.end as int,
        }
    }
}

/// The captures of one match. The first is the whole match.
#[derive(Clone, Debug, PartialEq, Eq)]
pub struct MatchRecord {
    /// The captures, the whole match first, then the groups that took part.
    pub captures: Vec<Capture>,
}

impl View for MatchRecord {
    type V = Seq<CaptureView>;

    open spec fn view(&self) -> Seq<CaptureView> {
        Seq::new(self.captures@.len(), |i: int| self.captures@[i]@)
    }
}

/// The byte ranges that a backend reports for the groups of one match, one
/// entry per group of the pattern; `None` for a group that took no part.
pub type Groups = Vec<Option<(usize, usize)>>;

/// The capture that stands for group `index`, which matched `[start, end)`.
pub open spec fn capture_of(
    labels: Seq<Seq<char>>,
    bytes: Seq<u8>,
    index: int,
    start: int,
    end: int,
) -> CaptureView {
    CaptureView { name: labels[index], text: text_between(bytes, start, end), start, end }
}

/// The captures of a match: one for each group that took part, in the groups'
/// order, and none for the others.
pub open spec fn captures_of(
    labels: Seq<Seq<char>>,
    groups: Seq<Option<(usize, usize)>>,
    bytes: Seq<u8>,
) -> Seq<CaptureView>
    decreases groups.len(),
{
    if groups.len() == 0 {
        Seq::empty()
    } else {
        let before = captures_of(labels, groups.drop_last(), bytes);
        match groups.last() {
            Some((start, end)) => before.push(
                capture_of(labels, bytes, groups.len() - 1, start as int, end as int),
            ),
            None => before,
        }
    }
}

/// Every capture lies in the subject, between characters, and its text is
/// the subject's text in its range.
pub open spec fn faithful(record: Seq<CaptureView>, bytes: Seq<u8>) -> bool {
    forall|k: int|
        0 <= k < record.len() ==> {
            &&& span_in(bytes, (#[trigger] record[k]).start, record[k].end)
            &&& record[k].text == text_between(bytes, record[k].start, record[k].end)
        }
}

/// The capture stands for a group that took part: it has that group's label
/// and range.
pub open spec fn stands_for_group(
    capture: CaptureView,
    labels: Seq<Seq<char>>,
    groups: Seq<Option<(usize, usize)>>,
) -> bool {
    exists|g: int|
        {
            &&& 0 <= g < groups.len()
            &&& #[trigger] groups[g] == Some((capture.start as usize, capture.end as usize))
            &&& capture.name == labels[g]
        }
}

/// Every capture stands for a group that took part. A group that took no
/// part has no capture.
pub open spec fn from_groups(
    record: Seq<CaptureView>,
    labels: Seq<Seq<char>>,
    groups: Seq<Option<(usize, usize)>>,
) -> bool {
    forall|k: int| 0 <= k < record.len() ==> stands_for_group(#[trigger] record[k], labels, groups)
}

/// The number of groups that took part in a match.
pub open spec fn participating(groups: Seq<Option<(usize, usize)>>) -> nat
    decreases groups.len(),
{
    if groups.len() == 0 {
        0
    } else {
        participating(groups.drop_last()) + if groups.last() is Some {
            1nat
        } else {
            0nat
        }
    }
}

/// The text of every capture is the subject's text in the capture's range.
pub proof fn lemma_captures_faithful(
    labels: Seq<Seq<char>>,
    groups: Seq<Option<(usize, usize)>>,
    bytes: Seq<u8>,
)
    requires
        groups_in(groups, bytes),
    ensures
        faithful(captures_of(labels, groups, bytes), bytes),
    decreases groups.len(),
{
    if groups.len() > 0 {
        let shorter = groups.drop_last();
        assert forall|g: int| 0 <= g < shorter.len() implies match #[trigger] shorter[g] {
            Some((start, end)) => span_in(bytes, start as int, end as int),
            None => true,
        } by {
            assert(shorter[g] == groups[g]);
        }
        lemma_captures_faithful(labels, shorter, bytes);
        assert(groups.last() == groups[groups.len() - 1]);
    }
}

/// A match has exactly one capture for each group that took part, and none
/// for a group that did not: no capture stands in for an absent group.
pub proof fn lemma_captures_participate(
    labels: Seq<Seq<char>>,
    groups: Seq<Option<(usize, usize)>>,
    bytes: Seq<u8>,
)
    ensures
        captures_of(labels, groups, bytes).len() == participating(groups),
        from_groups(captures_of(labels, groups, bytes), labels, groups),
    decreases groups.len(),
{
    if groups.len() > 0 {
        let shorter = groups.drop_last();
        lemma_captures_participate(labels, shorter, bytes);
        let record = captures_of(labels, groups, bytes);
        let before = captures_of(labels, shorter, bytes);
        assert forall|k: int| 0 <= k < record.len() implies stands_for_group(
            #[trigger] record[k],
            labels,
            groups,
        ) by {
            if k < before.len() {
                assert(stands_for_group(before[k], labels, shorter));
                let g = choose|g: int|
                    {
                        &&& 0 <= g < shorter.len()
                        &&& #[trigger] shorter[g] == Some(
                            (before[k].start as usize, before[k].end as usize),
                        )
                        &&& before[k].name == labels[g]
                    };
                assert(groups[g] == shorter[g]);
            } else {
                let g = groups.len() - 1;
                assert(groups[g] == groups.last());
            }
        }
    }
}

/// Where the first group took part, the first capture is the whole match.
pub proof fn lemma_first_capture(
    labels: Seq<Seq<char>>,
    groups: Seq<Option<(usize, usize)>>,
    bytes: Seq<u8>,
)
    requires
        groups.len() > 0,
        groups[0] is Some,
    ensures
        captures_of(labels, groups, bytes).len() > 0,
        captures_of(labels, groups, bytes)[0] == capture_of(
            labels,
            bytes,
            0,
            whole_span(groups).0,
            whole_span(groups).1,
        ),
    decreases groups.len(),
{
    let shorter = groups.drop_last();
    let before = captures_of(labels, shorter, bytes);
    if groups.len() > 1 {
        assert(shorter[0] == groups[0]);
        lemma_first_capture(labels, shorter, bytes);
        assert(before.len() > 0);
        match groups.last() {
            Some((start, end)) => {
                let last = capture_of(labels, bytes, groups.len() - 1, start as int, end as int);
                assert(before.push(last)[0] == before[0]);
            },
            None => {},
        }
    } else {
        assert(shorter.len() == 0);
        assert(before =~= Seq::empty());
        assert(groups.last() == groups[0]);
    }
}

/// Builds the capture of one group that matched `[start, end)` of the subject.
pub fn get_match_result_cap(name: &str, subject: &str, start: usize, end: usize) -> (capture:
    Capture)
    requires
        span_in(bytes_of(subject@), start as int, end as int),
    ensures
        capture@ == (CaptureView {
            name: name@,
            text: text_between(bytes_of(subject@), start as int, end as int),
            start: start as int,
            end: end as int,
        }),
{
    Capture {
        name: name.to_owned(),
        text: slice_between(subject, start, end).to_owned(),
        start,
        end,
    }
}

/// What a field of a capture holds, as a host is told it.
#[derive(Clone, Copy, Debug, PartialEq, Eq, Structural)]
pub enum FieldType {
    /// A text.
    Text,
    /// A range of integers that leaves its end out.
    Range,
}

/// The fields of a capture as a host sees them, in their order: the name,
/// the text and the range. A match is a list of such records.
pub fn match_result_type() -> (fields: Vec<(&'static str, FieldType)>)
    ensures
        fields@.len() == 3,
        fields@[0].0@ == "name"@ && fields@[0].1 == FieldType::Text,
        fields@[1].0@ == "text"@ && fields@[1].1 == FieldType::Text,
        fields@[2].0@ == "range"@ && fields@[2].1 == FieldType::Range,
{
    let mut fields: Vec<(&'static str, FieldType)> = Vec::new();
    fields.push(("name", FieldType::Text));
    fields.push(("text", FieldType::Text));
    fields.push(("range", FieldType::Range));
    fields
}

/// Builds the record of one match from the ranges of its groups.
pub fn get_match_result(labels: &Vec<String>, groups: &Groups, subject: &str) -> (record: MatchRecord)
    requires
        groups@.len() <= labels@.len(),
        groups_in(groups@, bytes_of(subject@)),
    ensures
        record@ == captures_of(texts_of(labels@), groups@, bytes_of(subject@)),
        faithful(record@, bytes_of(subject@)),
        from_groups(record@, texts_of(labels@), groups@),
        record@.len() == participating(groups@),
{
    proof {
        lemma_captures_faithful(texts_of(labels@), groups@, bytes_of(subject@));
        lemma_captures_participate(texts_of(labels@), groups@, bytes_of(subject@));
    }
    let ghost names = texts_of(labels@);
    let ghost bytes = bytes_of(subject@);
    let mut captures: Vec<Capture> = Vec::new();
    let mut index: usize = 0;
    while index < groups.len()
        invariant
            index <= groups@.len() <= labels@.len(),
            groups_in(groups@, bytes),
            names == texts_of(labels@),
            bytes == bytes_of(subject@),
            Seq::new(captures@.len(), |i: int| captures@[i]@) == captures_of(
                names,
                groups@.take(index as int),
                bytes,
            ),
        decreases groups@.len() - index,
    {
        let ghost before = Seq::new(captures@.len(), |i: int| captures@[i]@);
        proof {
            assert(groups@.take(index + 1).drop_last() =~= groups@.take(index as int));
            assert(groups@.take(index + 1).last() == groups@[index as int]);
        }
        match groups[index] {
            Some((start, end)) => {
                let capture = get_match_result_cap(labels[index].as_str(), subject, start, end);
                captures.push(capture);
                proof {
                    assert(capture@ == capture_of(
                        names,
                        bytes,
                        index as int,
                        start as int,
                        end as int,
                    ));
                    assert(Seq::new(captures@.len(), |i: int| captures@[i]@) =~= before.push(
                        capture@,
                    ));
                }
            },
            None => {},
        }
        index += 1;
    }
    proof {
        assert(groups@.take(index as int) =~= groups@);
    }
    MatchRecord { captures }
}

} // verus!
