//! What holds of listing and rewriting, whatever the pattern and the subject.

use vstd::prelude::*;
use vstd::utf8::*;
use crate::backend::regex_captures;
use crate::enumerate::{advances, matches_of, tiles};
use crate::record::CaptureView;
use crate::replace::{cursor_after, spliced, spliced_upto};
use crate::text::{bytes_of, lemma_text_between_all, lemma_text_between_join, span_in, text_between};

verus! {

/// Each replacement is the text of the match that it stands for.
pub open spec fn replaced_by_themselves(
    bytes: Seq<u8>,
    records: Seq<Seq<CaptureView>>,
    replacements: Seq<Seq<char>>,
) -> bool {
    &&& replacements.len() == records.len()
    &&& forall|i: int|
        0 <= i < records.len() ==> #[trigger] replacements[i] == text_between(
            bytes,
            records[i][0].start,
            records[i][0].end,
        )
}

/// A pattern that has no match in a subject lists no record there, and
/// rewriting leaves the subject as it is, whatever the replacements.
pub proof fn law_no_match(pattern: Seq<char>, subject: Seq<char>, replacements: Seq<Seq<char>>)
    requires
        regex_captures(pattern, subject).len() == 0,
    ensures
        matches_of(pattern, subject) == Seq::<Seq<CaptureView>>::empty(),
        spliced(bytes_of(subject), matches_of(pattern, subject), replacements) == subject,
{
    assert(matches_of(pattern, subject) =~= Seq::<Seq<CaptureView>>::empty());
    lemma_text_between_all(subject);
}

/// Where every match is replaced by its own text, the output up to a match
/// is the subject up to the end of that match.
pub proof fn lemma_identity_upto(
    bytes: Seq<u8>,
    records: Seq<Seq<CaptureView>>,
    replacements: Seq<Seq<char>>,
)
    requires
        valid_utf8(bytes),
        tiles(records, bytes),
        replaced_by_themselves(bytes, records, replacements),
    ensures
        spliced_upto(bytes, records, replacements) == text_between(
            bytes,
            0,
            cursor_after(records),
        ),
        span_in(bytes, 0, cursor_after(records)),
    decreases records.len(),
{
    is_char_boundary_start_end_of_seq(bytes);
    if records.len() == 0 {
        assert(bytes.subrange(0, 0) =~= Seq::<u8>::empty());
        assert(text_between(bytes, 0, 0) =~= Seq::<char>::empty()) by {
            reveal_with_fuel(decode_utf8, 1);
            reveal_with_fuel(valid_utf8, 1);
        }
    } else {
        let last = records.len() - 1;
        let shorter = records.drop_last();
        let fewer = replacements.drop_last();
        assert forall|i: int| 0 <= i < shorter.len() implies {
            &&& (#[trigger] shorter[i]).len() > 0
            &&& span_in(bytes, shorter[i][0].start, shorter[i][0].end)
        } by {
            assert(shorter[i] == records[i]);
        }
        assert forall|i: int| 0 <= i < shorter.len() - 1 implies (#[trigger] shorter[i])[0].end
            <= shorter[i + 1][0].start by {
            assert(shorter[i] == records[i]);
            assert(shorter[i + 1] == records[i + 1]);
        }
        assert forall|i: int| 0 <= i < shorter.len() implies #[trigger] fewer[i] == text_between(
            bytes,
            shorter[i][0].start,
            shorter[i][0].end,
        ) by {
            assert(fewer[i] == replacements[i]);
            assert(shorter[i] == records[i]);
        }
        lemma_identity_upto(bytes, shorter, fewer);
        let cursor = cursor_after(shorter);
        let start = records[last][0].start;
        let end = records[last][0].end;
        assert(records.last() == records[last]);
        assert(span_in(bytes, start, end));
        if shorter.len() > 0 {
            assert(shorter.last() == records[last - 1]);
            assert(records[last - 1][0].end <= records[last][0].start);
        }
        assert(replacements[last] == text_between(bytes, start, end));
        lemma_text_between_join(bytes, 0, cursor, start);
        lemma_text_between_join(bytes, 0, start, end);
    }
}

/// Rewriting with each match's own text as its replacement gives the subject
/// back.
pub proof fn law_identity(
    subject: Seq<char>,
    records: Seq<Seq<CaptureView>>,
    replacements: Seq<Seq<char>>,
)
    requires
        tiles(records, bytes_of(subject)),
        replaced_by_themselves(bytes_of(subject), records, replacements),
    ensures
        spliced(bytes_of(subject), records, replacements) == subject,
{
    let bytes = bytes_of(subject);
    lemma_text_between_all(subject);
    lemma_identity_upto(bytes, records, replacements);
    lemma_text_between_join(bytes, 0, cursor_after(records), bytes.len() as int);
}

/// Of two matches, the earlier ends before the later starts or where it
/// starts, starts no later, and ends strictly earlier: the place from which
/// the subject is read moves on with every match, also with an empty one. An
/// earlier match that is not empty starts strictly earlier.
pub proof fn law_matches_in_order(
    records: Seq<Seq<CaptureView>>,
    bytes: Seq<u8>,
    i: int,
    j: int,
)
    requires
        tiles(records, bytes),
        advances(records),
        0 <= i < j < records.len(),
    ensures
        records[i][0].end <= records[j][0].start,
        records[i][0].start <= records[j][0].start,
        records[i][0].end < records[j][0].end,
        records[i][0].start < records[i][0].end ==> records[i][0].start < records[j][0].start,
    decreases j - i,
{
    assert(span_in(bytes, records[i][0].start, records[i][0].end));
    assert(span_in(bytes, records[j][0].start, records[j][0].end));
    if i + 1 < j {
        law_matches_in_order(records, bytes, i, j - 1);
        assert(records[j - 1][0].end <= records[j - 1 + 1][0].start);
        assert(records[j - 1][0].end < records[j - 1 + 1][0].end);
        assert(span_in(bytes, records[j - 1][0].start, records[j - 1][0].end));
    } else {
        assert(records[i][0].end <= records[i + 1][0].start);
        assert(records[i][0].end < records[i + 1][0].end);
    }
}

} // verus!
