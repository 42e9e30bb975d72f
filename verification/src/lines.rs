//! The lines of a file's content.
//!
//! A file is cut into lines at each line feed. The line feed itself does
//! not belong to the line, nor does a carriage return just before it. What
//! follows the last line feed is a line of its own unless it is empty.

use core::str::Utf8Error;
use vstd::prelude::*;
use vstd::slice::slice_subrange;
use vstd::string::StringSliceAdditionalSpecFns;
use vstd::utf8::valid_utf8;

verus! {

/// `core::str::Utf8Error`: the reason why bytes are no UTF-8. It is not
/// looked into.
#[verifier::external_type_specification]
#[verifier::external_body]
pub struct ExUtf8Error(Utf8Error);

/// `core::str::from_utf8` accepts exactly the byte strings that are valid
/// UTF-8, and hands back the same bytes as a string slice.
pub assume_specification[ core::str::from_utf8 ](v: &[u8]) -> (r: Result<&str, Utf8Error>)
    ensures
        r is Ok <==> valid_utf8(v@),
        r matches Ok(s) ==> s.spec_bytes() == v@,
;

/// How many leading bytes of a file are looked at to tell whether it is
/// binary.
pub const BINARY_CHECK_LEN: usize = 1024;

/// A file counts as binary if one of its first 1024 bytes is 0 or 1.
pub open spec fn looks_binary(content: Seq<u8>) -> bool {
    exists|i: int|
        0 <= i < content.len() && i < 1024 && (#[trigger] content[i] == 0 || content[i] == 1)
}

/// The offset of the first line feed at or behind `start`, or the length
/// of the content if there is none.
pub open spec fn line_end(content: Seq<u8>, start: int) -> int
    decreases content.len() - start,
{
    if start >= content.len() || content[start] == 10 {
        start
    } else {
        line_end(content, start + 1)
    }
}

/// Where the text of the line that starts at `start` ends: at its line
/// feed, or at the carriage return before that.
pub open spec fn text_end(content: Seq<u8>, start: int) -> int {
    let end = line_end(content, start);
    if end < content.len() && start < end && content[end - 1] == 13 {
        end - 1
    } else {
        end
    }
}

/// The lines of `content` from offset `start` on.
pub open spec fn lines_from(content: Seq<u8>, start: int) -> Seq<Seq<u8>>
    decreases content.len() + 1 - start,
{
    if start < 0 || start >= content.len() {
        Seq::empty()
    } else {
        proof {
            lemma_line_end(content, start);
        }
        seq![content.subrange(start, text_end(content, start))] + lines_from(
            content,
            line_end(content, start) + 1,
        )
    }
}

/// The lines of `content`.
pub open spec fn lines_of(content: Seq<u8>) -> Seq<Seq<u8>> {
    lines_from(content, 0)
}

/// A line ends at or behind its start and inside the content; no byte of
/// it is a line feed.
pub proof fn lemma_line_end(content: Seq<u8>, start: int)
    requires
        0 <= start <= content.len(),
    ensures
        start <= text_end(content, start) <= line_end(content, start) <= content.len(),
        forall|i: int| start <= i < line_end(content, start) ==> content[i] != 10,
        line_end(content, start) < content.len() ==> content[line_end(content, start)] == 10,
    decreases content.len() - start,
{
    if start < content.len() && content[start] != 10 {
        lemma_line_end(content, start + 1);
    }
}

/// There are no more lines than bytes.
pub proof fn lemma_lines_count(content: Seq<u8>, start: int)
    requires
        0 <= start <= content.len(),
    ensures
        lines_from(content, start).len() <= content.len() - start,
    decreases content.len() - start,
{
    if start < content.len() {
        lemma_line_end(content, start);
        let next = line_end(content, start) + 1;
        if next <= content.len() {
            lemma_lines_count(content, next);
        }
    }
}

/// No line holds a line feed.
pub proof fn lemma_lines_hold_no_line_feed(content: Seq<u8>, start: int)
    requires
        0 <= start <= content.len(),
    ensures
        forall|i: int, k: int|
            0 <= i < lines_from(content, start).len() && 0 <= k < lines_from(
                content,
                start,
            )[i].len() ==> (#[trigger] lines_from(content, start)[i][k]) != 10,
    decreases content.len() - start,
{
    if start < content.len() {
        lemma_line_end(content, start);
        let first = content.subrange(start, text_end(content, start));
        let next = line_end(content, start) + 1;
        let rest = lines_from(content, next);
        if next <= content.len() {
            lemma_lines_hold_no_line_feed(content, next);
        }
        assert forall|i: int, k: int|
            0 <= i < lines_from(content, start).len() && 0 <= k < lines_from(
                content,
                start,
            )[i].len() implies (#[trigger] lines_from(content, start)[i][k]) != 10 by {
            if i == 0 {
                assert(lines_from(content, start)[0] == first);
                assert(first[k] == content[start + k]);
            } else {
                assert(lines_from(content, start)[i] == rest[i - 1]);
            }
        }
    }
}

/// Content that ends in a line feed has no empty line behind it, and
/// content without a byte has no line at all.
pub proof fn lemma_no_line_behind_last_line_feed(content: Seq<u8>, start: int)
    requires
        0 <= start < content.len(),
        line_end(content, start) == content.len() - 1,
    ensures
        lines_from(content, start).len() == 1,
        lines_of(Seq::<u8>::empty()).len() == 0,
{
    lemma_line_end(content, start);
    assert(lines_from(content, content.len() as int) == Seq::<Seq<u8>>::empty());
}

/// Whether the file that starts with `head` counts as binary.
pub fn is_binary(head: &[u8]) -> (binary: bool)
    ensures
        binary == looks_binary(head@),
{
    let limit = if head.len() < BINARY_CHECK_LEN {
        head.len()
    } else {
        BINARY_CHECK_LEN
    };
    let mut i: usize = 0;
    while i < limit
        invariant
            i <= limit <= head@.len(),
            limit <= 1024,
            limit == head@.len() || limit == 1024,
            forall|k: int| 0 <= k < i ==> head@[k] != 0 && head@[k] != 1,
        decreases limit - i,
    {
        if head[i] == 0 || head[i] == 1 {
            return true;
        }
        i += 1;
    }
    false
}

/// Finds the line that starts at offset `start`: returns where its text
/// ends and where its line feed stands (the length of the content if it
/// has none).
pub fn find_line(content: &[u8], start: usize) -> (ends: (usize, usize))
    requires
        start <= content@.len(),
    ensures
        ends.0 == text_end(content@, start as int),
        ends.1 == line_end(content@, start as int),
        start <= ends.0 <= ends.1 <= content@.len(),
{
    let len = content.len();
    let mut end = start;
    while end < len && content[end] != 10
        invariant
            start <= end <= len == content@.len(),
            line_end(content@, start as int) == line_end(content@, end as int),
        decreases len - end,
    {
        end += 1;
    }
    proof {
        lemma_line_end(content@, start as int);
    }
    let stop = if end < len && start < end && content[end - 1] == 13 {
        end - 1
    } else {
        end
    };
    (stop, end)
}

/// The bytes of `content` from `from` up to `to`.
pub fn line_slice(content: &[u8], from: usize, to: usize) -> (piece: &[u8])
    requires
        from <= to <= content@.len(),
    ensures
        piece@ == content@.subrange(from as int, to as int),
{
    slice_subrange(content, from, to)
}

} // verus!
