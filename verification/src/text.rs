//! Text measured in bytes.
//!
//! Match offsets are byte offsets into the UTF-8 form of a line, while the
//! view of a string is its sequence of characters. This module relates the
//! two: it names the piece of a text between two byte offsets, proves how
//! such pieces fit together, and cuts them out of a `&str`.

use vstd::prelude::*;
use vstd::string::StringSliceAdditionalSpecFns;
use vstd::utf8::decode_utf8;
use vstd::utf8::decode_utf8_split;
use vstd::utf8::encode_utf8;
use vstd::utf8::encode_utf8_decode_utf8;
use vstd::utf8::encode_utf8_valid_utf8;
use vstd::utf8::is_ascii_chars;
use vstd::utf8::is_ascii_chars_encode_utf8;
use vstd::utf8::is_char_boundary;
use vstd::utf8::is_char_boundary_iff_not_is_continuation_byte;
use vstd::utf8::is_char_boundary_start_end_of_seq;
use vstd::utf8::valid_utf8;
use vstd::utf8::valid_utf8_split;

verus! {

/// `String::push` appends one character to the end of the string.
pub assume_specification[ String::push ](s: &mut String, c: char)
    ensures
        final(s)@ == old(s)@.push(c),
;

/// The length of `text` in bytes, once encoded as UTF-8.
pub open spec fn byte_len(text: Seq<char>) -> nat {
    encode_utf8(text).len()
}

/// Whether byte offset `at` falls between two characters of `text` (or at
/// one of its ends).
pub open spec fn on_boundary(text: Seq<char>, at: int) -> bool {
    0 <= at <= byte_len(text) && is_char_boundary(encode_utf8(text), at)
}

/// The characters of `text` whose encoding occupies the bytes
/// `from..to`. Meaningful when both offsets are on character boundaries.
pub open spec fn byte_slice(text: Seq<char>, from: int, to: int) -> Seq<char> {
    decode_utf8(encode_utf8(text).subrange(from, to))
}

/// A boundary of a byte string is still a boundary of any prefix, cut at a
/// boundary, that reaches it.
proof fn lemma_boundary_in_range(bytes: Seq<u8>, from: int, at: int, to: int)
    requires
        valid_utf8(bytes),
        0 <= from <= at <= to <= bytes.len(),
        is_char_boundary(bytes, from),
        is_char_boundary(bytes, at),
        is_char_boundary(bytes, to),
    ensures
        valid_utf8(bytes.subrange(from, to)),
        is_char_boundary(bytes.subrange(from, to), at - from),
{
    let head = bytes.subrange(0, to);
    valid_utf8_split(bytes, to);
    if from < to {
        is_char_boundary_iff_not_is_continuation_byte(bytes, from);
        is_char_boundary_iff_not_is_continuation_byte(head, from);
    } else {
        is_char_boundary_start_end_of_seq(head);
    }
    valid_utf8_split(head, from);
    let mid = head.subrange(from, head.len() as int);
    assert(mid == bytes.subrange(from, to));
    if at < to {
        is_char_boundary_iff_not_is_continuation_byte(bytes, at);
        is_char_boundary_iff_not_is_continuation_byte(mid, at - from);
    } else {
        is_char_boundary_start_end_of_seq(mid);
    }
}

/// Encoding a concatenation gives the concatenation of the encodings.
pub proof fn lemma_encode_concat(a: Seq<char>, b: Seq<char>)
    ensures
        encode_utf8(a + b) == encode_utf8(a) + encode_utf8(b),
    decreases a.len(),
{
    if a.len() > 0 {
        assert((a + b).drop_first() == a.drop_first() + b);
        lemma_encode_concat(a.drop_first(), b);
    }
}

/// The whole text is the piece between offset 0 and its byte length.
pub proof fn lemma_byte_slice_all(text: Seq<char>)
    ensures
        byte_slice(text, 0, byte_len(text) as int) == text,
        on_boundary(text, 0),
        on_boundary(text, byte_len(text) as int),
{
    let bytes = encode_utf8(text);
    assert(bytes.subrange(0, bytes.len() as int) == bytes);
    encode_utf8_decode_utf8(text);
    encode_utf8_valid_utf8(text);
    is_char_boundary_start_end_of_seq(bytes);
}

/// Two adjoining pieces make up the piece that spans both.
pub proof fn lemma_byte_slice_join(text: Seq<char>, from: int, at: int, to: int)
    requires
        from <= at <= to,
        on_boundary(text, from),
        on_boundary(text, at),
        on_boundary(text, to),
    ensures
        byte_slice(text, from, at) + byte_slice(text, at, to) == byte_slice(text, from, to),
{
    let bytes = encode_utf8(text);
    encode_utf8_valid_utf8(text);
    lemma_boundary_in_range(bytes, from, at, to);
    let mid = bytes.subrange(from, to);
    decode_utf8_split(mid, at - from);
    assert(mid.subrange(0, at - from) == bytes.subrange(from, at));
    assert(mid.subrange(at - from, mid.len() as int) == bytes.subrange(at, to));
}

/// An empty piece holds no characters.
pub proof fn lemma_byte_slice_empty(text: Seq<char>, at: int)
    requires
        0 <= at <= byte_len(text),
    ensures
        byte_slice(text, at, at) == Seq::<char>::empty(),
{
}

/// In a text of ASCII characters every character is one byte: offsets count
/// characters, every offset is a boundary, and a piece is a subrange.
pub proof fn lemma_byte_slice_ascii(text: Seq<char>, from: int, to: int)
    requires
        is_ascii_chars(text),
        0 <= from <= to <= text.len(),
    ensures
        byte_len(text) == text.len(),
        on_boundary(text, from),
        on_boundary(text, to),
        byte_slice(text, from, to) == text.subrange(from, to),
{
    let bytes = encode_utf8(text);
    let piece = text.subrange(from, to);
    is_ascii_chars_encode_utf8(text);
    is_ascii_chars_encode_utf8(piece);
    encode_utf8_valid_utf8(text);
    is_char_boundary_start_end_of_seq(bytes);
    if from < bytes.len() {
        is_char_boundary_iff_not_is_continuation_byte(bytes, from);
    }
    if to < bytes.len() {
        is_char_boundary_iff_not_is_continuation_byte(bytes, to);
    }
    assert(bytes.subrange(from, to) =~= encode_utf8(piece)) by {
        assert forall|i: int| 0 <= i < to - from implies bytes.subrange(from, to)[i]
            == encode_utf8(piece)[i] by {
        }
    }
    encode_utf8_decode_utf8(piece);
}

/// A text of decimal digits takes one byte for each of them.
pub proof fn lemma_ascii_digits(text: Seq<char>)
    requires
        forall|i: int| 0 <= i < text.len() ==> '0' <= #[trigger] text[i] <= '9',
    ensures
        byte_len(text) == text.len(),
{
    is_ascii_chars_encode_utf8(text);
}

/// The length of `s` in bytes.
pub fn str_byte_len(s: &str) -> (n: usize)
    ensures
        n == byte_len(s@),
{
    s.as_bytes().len()
}

/// The part of `s` between byte offsets `from` and `to`.
pub fn substr(s: &str, from: usize, to: usize) -> (piece: &str)
    requires
        from <= to,
        on_boundary(s@, from as int),
        on_boundary(s@, to as int),
    ensures
        piece@ == byte_slice(s@, from as int, to as int),
{
    let ghost bytes = encode_utf8(s@);
    proof {
        encode_utf8_valid_utf8(s@);
        lemma_boundary_in_range(bytes, 0, from as int, to as int);
    }
    let (head, _) = s.split_at(to);
    let (_, piece) = head.split_at(from);
    proof {
        assert(piece.spec_bytes() == bytes.subrange(from as int, to as int));
        encode_utf8_decode_utf8(piece@);
    }
    piece
}

} // verus!
