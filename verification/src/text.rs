//! Byte ranges of a UTF-8 text and the text that lies between two offsets.

use vstd::prelude::*;
use vstd::string::*;
use vstd::utf8::*;

verus! {

/// The UTF-8 bytes of a text.
pub open spec fn bytes_of(text: Seq<char>) -> Seq<u8> {
    encode_utf8(text)
}

/// The texts of a list of strings.
pub open spec fn texts_of(strings: Seq<String>) -> Seq<Seq<char>> {
    strings.map_values(|s: String| s@)
}

/// `[start, end)` is a byte range of `bytes` whose two ends fall between characters.
pub open spec fn span_in(bytes: Seq<u8>, start: int, end: int) -> bool {
    &&& 0 <= start <= end <= bytes.len()
    &&& is_char_boundary(bytes, start)
    &&& is_char_boundary(bytes, end)
}

/// The text held by the bytes `[start, end)`.
pub open spec fn text_between(bytes: Seq<u8>, start: int, end: int) -> Seq<char> {
    decode_utf8(bytes.subrange(start, end))
}

/// A character boundary of a text is one of each range of it that reaches it.
pub proof fn lemma_boundary_within(bytes: Seq<u8>, start: int, mid: int, end: int)
    requires
        valid_utf8(bytes),
        span_in(bytes, start, end),
        start <= mid <= end,
        is_char_boundary(bytes, mid),
    ensures
        valid_utf8(bytes.subrange(start, end)),
        is_char_boundary(bytes.subrange(start, end), mid - start),
{
    let head = bytes.subrange(0, end);
    valid_utf8_split(bytes, end);
    assert(valid_utf8(head));
    if start < end {
        is_char_boundary_iff_not_is_continuation_byte(bytes, start);
        is_char_boundary_iff_not_is_continuation_byte(head, start);
        assert(head[start] == bytes[start]);
    } else {
        is_char_boundary_start_end_of_seq(head);
    }
    assert(is_char_boundary(head, start));
    valid_utf8_split(head, start);
    let part = head.subrange(start, head.len() as int);
    assert(part =~= bytes.subrange(start, end));
    if mid < end {
        is_char_boundary_iff_not_is_continuation_byte(bytes, mid);
        is_char_boundary_iff_not_is_continuation_byte(part, mid - start);
        assert(part[mid - start] == bytes[mid]);
    } else {
        is_char_boundary_start_end_of_seq(part);
    }
}

/// The texts of two adjoining ranges, one after the other, are the text of the
/// range that spans both.
pub proof fn lemma_text_between_join(bytes: Seq<u8>, start: int, mid: int, end: int)
    requires
        valid_utf8(bytes),
        span_in(bytes, start, mid),
        span_in(bytes, mid, end),
    ensures
        text_between(bytes, start, mid) + text_between(bytes, mid, end) == text_between(
            bytes,
            start,
            end,
        ),
{
    lemma_boundary_within(bytes, start, mid, end);
    let part = bytes.subrange(start, end);
    decode_utf8_split(part, mid - start);
    assert(part.subrange(0, mid - start) =~= bytes.subrange(start, mid));
    assert(part.subrange(mid - start, part.len() as int) =~= bytes.subrange(mid, end));
}

/// The whole range of a text holds the text.
pub proof fn lemma_text_between_all(text: Seq<char>)
    ensures
        text_between(bytes_of(text), 0, bytes_of(text).len() as int) == text,
        valid_utf8(bytes_of(text)),
        span_in(bytes_of(text), 0, bytes_of(text).len() as int),
        span_in(bytes_of(text), 0, 0),
{
    let bytes = bytes_of(text);
    encode_utf8_valid_utf8(text);
    encode_utf8_decode_utf8(text);
    is_char_boundary_start_end_of_seq(bytes);
    assert(bytes.subrange(0, bytes.len() as int) =~= bytes);
}

/// The part of `s` that lies in the byte range `[start, end)`.
pub fn slice_between<'a>(s: &'a str, start: usize, end: usize) -> (part: &'a str)
    requires
        span_in(bytes_of(s@), start as int, end as int),
    ensures
        part@ == text_between(bytes_of(s@), start as int, end as int),
{
    let ghost bytes = s.spec_bytes();
    proof {
        encode_utf8_valid_utf8(s@);
        lemma_boundary_within(bytes, 0, start as int, end as int);
        is_char_boundary_start_end_of_seq(bytes);
    }
    let (head, _) = s.split_at(end);
    proof {
        assert(bytes.subrange(0, end as int).subrange(start as int, end as int)
            =~= bytes.subrange(start as int, end as int));
    }
    let (_, part) = head.split_at(start);
    proof {
        encode_utf8_decode_utf8(part@);
        assert(part.spec_bytes() =~= bytes.subrange(start as int, end as int));
    }
    part
}

} // verus!
