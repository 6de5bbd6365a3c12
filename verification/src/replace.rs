//! Rewriting a subject: every match gives way to what a transform returns for
//! it, and what lies between the matches stays as it is.

use vstd::prelude::*;
use vstd::string::*;
use crate::backend::{regex_captures, regex_diagnostic};
use crate::enumerate::{enumerate, matches_of, records_view, tiles};
use crate::laws::law_identity;
use crate::pattern::{compile, CompileError};
use crate::record::{faithful, CaptureView, MatchRecord};
use crate::text::{
    bytes_of, lemma_text_between_all, slice_between, span_in, text_between, texts_of,
};

verus! {

/// Why a subject was not rewritten.
#[derive(Debug)]
pub enum ReplaceError<E> {
    /// The pattern was refused.
    Compile(CompileError),
    /// The transform failed on a match; this is its error.
    Transform(E),
}

/// The place in the subject behind the last of the records: its start where
/// there is none.
pub open spec fn cursor_after(records: Seq<Seq<CaptureView>>) -> int {
    if records.len() == 0 {
        0
    } else {
        records.last()[0].end
    }
}

/// The output up to and with the last record's replacement: for each record
/// in turn, the subject's text from the match before it up to its start, then
/// its replacement.
pub open spec fn spliced_upto(
    bytes: Seq<u8>,
    records: Seq<Seq<CaptureView>>,
    replacements: Seq<Seq<char>>,
) -> Seq<char>
    decreases records.len(),
{
    if records.len() == 0 {
        Seq::empty()
    } else {
        spliced_upto(bytes, records.drop_last(), replacements.drop_last()) + text_between(
            bytes,
            cursor_after(records.drop_last()),
            records.last()[0].start,
        ) + replacements[records.len() - 1]
    }
}

/// The rewritten subject: the output up to the last replacement, then the
/// rest of the subject behind the last match.
pub open spec fn spliced(
    bytes: Seq<u8>,
    records: Seq<Seq<CaptureView>>,
    replacements: Seq<Seq<char>>,
) -> Seq<char> {
    spliced_upto(bytes, records, replacements) + text_between(
        bytes,
        cursor_after(records),
        bytes.len() as int,
    )
}

/// The transform has returned `replacements[i]` for `records[i]`, for each of
/// the records.
pub open spec fn all_replaced<E, F: Fn(&MatchRecord) -> Result<String, E>>(
    transform: F,
    records: Seq<MatchRecord>,
    replacements: Seq<String>,
) -> bool {
    &&& replacements.len() == records.len()
    &&& forall|i: int|
        0 <= i < records.len() ==> call_ensures(
            transform,
            (&#[trigger] records[i],),
            Ok::<String, E>(replacements[i]),
        )
}

/// The transform has returned a text for each record in front of `records[at]`
/// and has failed with `error` on that one.
pub open spec fn failed_at<E, F: Fn(&MatchRecord) -> Result<String, E>>(
    transform: F,
    records: Seq<MatchRecord>,
    at: int,
    error: E,
) -> bool {
    &&& 0 <= at < records.len()
    &&& call_ensures(transform, (&records[at],), Err::<String, E>(error))
    &&& exists|earlier: Seq<String>| #[trigger] all_replaced(transform, records.take(at), earlier)
}

/// The transform returns, for every record, the text of the record's whole
/// match, and never fails.
pub open spec fn returns_whole_match<E, F: Fn(&MatchRecord) -> Result<String, E>>(
    transform: F,
) -> bool {
    forall|record: MatchRecord, out: Result<String, E>|
        #[trigger] call_ensures(transform, (&record,), out) && record@.len() > 0 ==> out is Ok
            && out->Ok_0@ == record@[0].text
}

/// The text of each record's whole match is the subject's text in its range.
pub open spec fn whole_faithful(records: Seq<Seq<CaptureView>>, bytes: Seq<u8>) -> bool {
    forall|i: int|
        0 <= i < records.len() ==> (#[trigger] records[i])[0].text == text_between(
            bytes,
            records[i][0].start,
            records[i][0].end,
        )
}

/// `text` is the subject with each of its matches replaced by what the
/// transform has returned for the match's record.
pub open spec fn rewritten<E, F: Fn(&MatchRecord) -> Result<String, E>>(
    transform: F,
    matches: Seq<Seq<CaptureView>>,
    subject: Seq<char>,
    text: Seq<char>,
) -> bool {
    exists|records: Seq<MatchRecord>, replacements: Seq<String>|
        {
            &&& records_view(records) == matches
            &&& #[trigger] all_replaced(transform, records, replacements)
            &&& text == spliced(bytes_of(subject), matches, texts_of(replacements))
        }
}

/// The transform has failed with `error` on one of the matches, after it has
/// returned a text for each match in front of that one.
pub open spec fn failed_with<E, F: Fn(&MatchRecord) -> Result<String, E>>(
    transform: F,
    matches: Seq<Seq<CaptureView>>,
    error: E,
) -> bool {
    exists|records: Seq<MatchRecord>, at: int|
        {
            &&& records_view(records) == matches
            &&& #[trigger] failed_at(transform, records, at, error)
        }
}

/// Puts the replacements in the places of the matches.
///
/// The result holds, for each record in turn, the subject's text between the
/// match before it and its start, then its replacement; and at last the rest
/// of the subject.
pub fn splice(subject: &str, records: &Vec<MatchRecord>, replacements: &Vec<String>) -> (out:
    String)
    requires
        tiles(records_view(records@), bytes_of(subject@)),
        replacements@.len() == records@.len(),
    ensures
        out@ == spliced(bytes_of(subject@), records_view(records@), texts_of(replacements@)),
{
    let ghost bytes = bytes_of(subject@);
    let ghost views = records_view(records@);
    let ghost texts = texts_of(replacements@);
    proof {
        lemma_text_between_all(subject@);
    }
    let mut out = String::new();
    let mut cursor: usize = 0;
    let mut index: usize = 0;
    while index < records.len()
        invariant
            bytes == bytes_of(subject@),
            views == records_view(records@),
            texts == texts_of(replacements@),
            tiles(views, bytes),
            replacements@.len() == records@.len(),
            index <= records@.len(),
            cursor as int == cursor_after(views.take(index as int)),
            span_in(bytes, cursor as int, cursor as int),
            span_in(bytes, 0, bytes.len() as int),
            out@ == spliced_upto(bytes, views.take(index as int), texts.take(index as int)),
        decreases records@.len() - index,
    {
        let record = &records[index];
        proof {
            let now = views.take(index + 1);
            assert(now.drop_last() =~= views.take(index as int));
            assert(texts.take(index + 1).drop_last() =~= texts.take(index as int));
            assert(now.last() == views[index as int]);
            assert(views[index as int] == record@);
            assert(record@[0] == record.captures@[0]@);
            if index > 0 {
                assert(views.take(index as int).last() == views[index - 1]);
                assert(views[index - 1][0].end <= views[index as int][0].start);
            }
        }
        let whole = &record.captures[0];
        out.append(slice_between(subject, cursor, whole.start));
        out.append(replacements[index].as_str());
        cursor = whole.end;
        index += 1;
    }
    proof {
        assert(views.take(index as int) =~= views);
        assert(texts.take(index as int) =~= texts);
    }
    out.append(slice_between(subject, cursor, subject.as_bytes().len()));
    out
}

/// Rewrites a subject whose matches are `records`: calls the transform once
/// for each record, from left to right, and puts what it returns in the
/// match's place. Where the transform fails, no further record is handed to
/// it, its error is returned and nothing of the output is.
pub fn replace_matches<E, F: Fn(&MatchRecord) -> Result<String, E>>(
    subject: &str,
    records: &Vec<MatchRecord>,
    transform: F,
) -> (out: Result<String, E>)
    requires
        tiles(records_view(records@), bytes_of(subject@)),
        forall|i: int|
            0 <= i < records@.len() ==> call_requires(transform, (&#[trigger] records@[i],)),
    ensures
        match out {
            Ok(text) => rewritten(transform, records_view(records@), subject@, text@),
            Err(error) => failed_with(transform, records_view(records@), error),
        },
        records@.len() == 0 ==> out is Ok && out->Ok_0@ == subject@,
        returns_whole_match(transform) && whole_faithful(
            records_view(records@),
            bytes_of(subject@),
        ) ==> out is Ok && out->Ok_0@ == subject@,
{
    let mut replacements: Vec<String> = Vec::new();
    let mut index: usize = 0;
    while index < records.len()
        invariant
            index <= records@.len(),
            forall|i: int|
                0 <= i < records@.len() ==> call_requires(transform, (&#[trigger] records@[i],)),
            all_replaced(transform, records@.take(index as int), replacements@),
            tiles(records_view(records@), bytes_of(subject@)),
        decreases records@.len() - index,
    {
        match transform(&records[index]) {
            Ok(replacement) => {
                let ghost before = replacements@;
                replacements.push(replacement);
                proof {
                    let done = records@.take(index + 1);
                    assert forall|i: int| 0 <= i < done.len() implies call_ensures(
                        transform,
                        (&#[trigger] done[i],),
                        Ok::<String, E>(replacements@[i]),
                    ) by {
                        if i < index {
                            assert(records@.take(index as int)[i] == done[i]);
                            assert(before[i] == replacements@[i]);
                        }
                    }
                }
            },
            Err(error) => {
                proof {
                    assert(failed_at(transform, records@, index as int, error));
                    assert(failed_with(transform, records_view(records@), error));
                    assert(records_view(records@)[index as int] == records@[index as int]@);
                    assert(records@[index as int]@.len() > 0);
                }
                return Err(error);
            },
        }
        index += 1;
    }
    proof {
        assert(records@.take(index as int) =~= records@);
        if records@.len() == 0 {
            lemma_text_between_all(subject@);
            assert(records_view(records@).len() == 0);
        }
        let views = records_view(records@);
        let texts = texts_of(replacements@);
        if returns_whole_match(transform) && whole_faithful(views, bytes_of(subject@)) {
            assert forall|i: int| 0 <= i < views.len() implies #[trigger] texts[i]
                == text_between(bytes_of(subject@), views[i][0].start, views[i][0].end) by {
                let record = records@[i];
                assert(views[i] == record@);
                assert(call_ensures(transform, (&record,), Ok::<String, E>(replacements@[i])));
            }
            law_identity(subject@, views, texts);
        }
    }
    let text = splice(subject, records, &replacements);
    proof {
        assert(all_replaced(transform, records@, replacements@));
        assert(rewritten(transform, records_view(records@), subject@, text@));
    }
    Ok(text)
}

/// Compiles a pattern and rewrites a subject: every match of the pattern
/// gives way to what the transform returns for its record.
///
/// A text that the engine refuses as a pattern gives the error before the
/// transform is called at all. Where the transform fails on a match, its
/// error is returned. A subject without a match is returned as it is.
pub fn replace_all<E, F: Fn(&MatchRecord) -> Result<String, E>>(
    pattern: &str,
    subject: &str,
    transform: F,
) -> (out: Result<String, ReplaceError<E>>)
    requires
        forall|record: MatchRecord| record@.len() > 0 ==> call_requires(transform, (&record,)),
    ensures
        match out {
            Ok(text) => regex_diagnostic(pattern@) is None && rewritten(
                transform,
                matches_of(pattern@, subject@),
                subject@,
                text@,
            ),
            Err(ReplaceError::Compile(error)) => regex_diagnostic(pattern@) == Some(
                error.message@,
            ),
            Err(ReplaceError::Transform(error)) => regex_diagnostic(pattern@) is None
                && failed_with(transform, matches_of(pattern@, subject@), error),
        },
        regex_diagnostic(pattern@) is None && regex_captures(pattern@, subject@).len() == 0
            ==> out is Ok && out->Ok_0@ == subject@,
        regex_diagnostic(pattern@) is None && returns_whole_match(transform) ==> out is Ok
            && out->Ok_0@ == subject@,
{
    match compile(pattern) {
        Ok(compiled) => {
            let records = enumerate(&compiled, subject);
            proof {
                assert forall|i: int| 0 <= i < records@.len() implies call_requires(
                    transform,
                    (&#[trigger] records@[i],),
                ) by {
                    let record = records@[i];
                    assert(records_view(records@)[i] == record@);
                    assert(record@.len() > 0);
                    assert(call_requires(transform, (&record,)));
                }
                assert forall|i: int| 0 <= i < records@.len() implies (#[trigger] records_view(
                    records@,
                )[i])[0].text == text_between(
                    bytes_of(subject@),
                    records_view(records@)[i][0].start,
                    records_view(records@)[i][0].end,
                ) by {
                    assert(faithful(records@[i]@, bytes_of(subject@)));
                    assert(records_view(records@)[i] == records@[i]@);
                    assert(records@[i]@.len() > 0);
                }
            }
            match replace_matches(subject, &records, transform) {
                Ok(text) => Ok(text),
                Err(error) => Err(ReplaceError::Transform(error)),
            }
        },
        Err(error) => Err(ReplaceError::Compile(error)),
    }
}

} // verus!
