//! Colouring the matches of a line.
//!
//! A line is written out piece by piece: the text before a match as it is,
//! then the match between a colour code and the reset code, and at last the
//! text behind the final match. Where a match begins inside text that is
//! already written, only its remainder is coloured, so that no character of
//! the line is written twice.

use crate::patterns::lemma_spans_fit_front;
use crate::patterns::spans_fit;
use crate::patterns::GrepMatch;
use crate::text::byte_len;
use crate::text::byte_slice;
use crate::text::lemma_byte_slice_all;
use crate::text::lemma_byte_slice_empty;
use crate::text::lemma_byte_slice_join;
use crate::text::on_boundary;
use crate::text::str_byte_len;
use crate::text::substr;
use vstd::prelude::*;
use vstd::string::StringExecFns;

verus! {

/// The number of colours that matches cycle through.
pub const PALETTE_SIZE: usize = 5;

/// The code that colours a file name (purple).
pub open spec fn colour_file() -> Seq<char> {
    seq!['\u{1b}', '[', '3', '5', 'm']
}

/// The code that colours a line number (green).
pub open spec fn colour_line() -> Seq<char> {
    seq!['\u{1b}', '[', '3', '2', 'm']
}

/// The code that ends a coloured run.
pub open spec fn colour_end() -> Seq<char> {
    seq!['\u{1b}', '[', 'm']
}

/// The code of the `slot`-th palette colour: light red, yellow, light blue,
/// green, purple.
pub open spec fn palette(slot: int) -> Seq<char> {
    if slot == 0 {
        seq!['\u{1b}', '[', '1', ';', '3', '1', 'm']
    } else if slot == 1 {
        seq!['\u{1b}', '[', '3', '3', 'm']
    } else if slot == 2 {
        seq!['\u{1b}', '[', '1', ';', '3', '4', 'm']
    } else if slot == 3 {
        seq!['\u{1b}', '[', '3', '2', 'm']
    } else {
        seq!['\u{1b}', '[', '3', '5', 'm']
    }
}

/// The colour code for the matches of one pattern.
pub open spec fn match_colour(pattern_index: usize) -> Seq<char> {
    palette(pattern_index as int % 5)
}

/// Where the coloured part of `m` begins, when the line is already written
/// up to `written`.
pub open spec fn paint_from(written: int, m: GrepMatch) -> int {
    if m.start < written {
        written
    } else {
        m.start as int
    }
}

/// Where the coloured part of `m` ends, when the line is already written up
/// to `written`.
pub open spec fn paint_to(written: int, m: GrepMatch) -> int {
    if m.end < paint_from(written, m) {
        paint_from(written, m)
    } else {
        m.end as int
    }
}

/// How far the line is written once all of `spans` are handled.
pub open spec fn written_to(spans: Seq<GrepMatch>) -> int
    decreases spans.len(),
{
    if spans.len() == 0 {
        0
    } else {
        paint_to(written_to(spans.drop_last()), spans.last())
    }
}

/// The output for `spans`: for each of them the text since the one before,
/// then its own text, wrapped in its colour and the reset code when `paint`
/// is set.
pub open spec fn runs(text: Seq<char>, spans: Seq<GrepMatch>, paint: bool) -> Seq<char>
    decreases spans.len(),
{
    if spans.len() == 0 {
        Seq::empty()
    } else {
        let written = written_to(spans.drop_last());
        let m = spans.last();
        runs(text, spans.drop_last(), paint) + byte_slice(text, written, paint_from(written, m))
            + (if paint {
            match_colour(m.pattern_index)
        } else {
            Seq::empty()
        }) + byte_slice(text, paint_from(written, m), paint_to(written, m)) + (if paint {
            colour_end()
        } else {
            Seq::empty()
        })
    }
}

/// The whole line with its matches, coloured when `paint` is set.
pub open spec fn rendered(text: Seq<char>, spans: Seq<GrepMatch>, paint: bool) -> Seq<char> {
    runs(text, spans, paint) + byte_slice(text, written_to(spans), byte_len(text) as int)
}

/// The line with each match in the colour of its pattern.
pub open spec fn coloured_line(text: Seq<char>, spans: Seq<GrepMatch>) -> Seq<char> {
    rendered(text, spans, true)
}

/// The written part of the line ends on a character boundary inside the
/// line, and never moves backwards.
pub proof fn lemma_written_to(text: Seq<char>, spans: Seq<GrepMatch>)
    requires
        spans_fit(spans, text),
    ensures
        on_boundary(text, written_to(spans)),
        spans.len() > 0 ==> written_to(spans.drop_last()) <= paint_from(
            written_to(spans.drop_last()),
            spans.last(),
        ) <= written_to(spans),
        spans.len() > 0 ==> spans.last().end <= written_to(spans),
    decreases spans.len(),
{
    if spans.len() == 0 {
        lemma_byte_slice_all(text);
    } else {
        assert(spans.drop_last() == spans.take(spans.len() - 1));
        lemma_spans_fit_front(spans, text, spans.len() - 1);
        lemma_written_to(text, spans.drop_last());
    }
}

/// Without the colour codes the output is the text of the line up to where
/// it is written: nothing is lost, doubled or moved.
pub proof fn lemma_runs_keep_text(text: Seq<char>, spans: Seq<GrepMatch>)
    requires
        spans_fit(spans, text),
    ensures
        runs(text, spans, false) == byte_slice(text, 0, written_to(spans)),
    decreases spans.len(),
{
    if spans.len() == 0 {
        lemma_byte_slice_empty(text, 0);
    } else {
        let front = spans.drop_last();
        let m = spans.last();
        lemma_written_to(text, spans);
        assert(front == spans.take(spans.len() - 1));
        lemma_spans_fit_front(spans, text, spans.len() - 1);
        lemma_written_to(text, front);
        lemma_runs_keep_text(text, front);
        let written = written_to(front);
        let from = paint_from(written, m);
        let to = paint_to(written, m);
        lemma_byte_slice_all(text);
        lemma_byte_slice_join(text, 0, written, from);
        lemma_byte_slice_join(text, 0, from, to);
    }
}

/// Taking the colour codes out of a rendered line gives back the line.
pub proof fn lemma_rendered_keeps_text(text: Seq<char>, spans: Seq<GrepMatch>)
    requires
        spans_fit(spans, text),
    ensures
        rendered(text, spans, false) == text,
{
    lemma_runs_keep_text(text, spans);
    lemma_written_to(text, spans);
    lemma_byte_slice_all(text);
    lemma_byte_slice_join(text, 0, written_to(spans), byte_len(text) as int);
}

/// A match that begins where the line is written to, or behind it, is
/// coloured from its start to its end.
pub proof fn lemma_separate_span_is_whole(written: int, m: GrepMatch)
    requires
        written <= m.start <= m.end,
    ensures
        paint_from(written, m) == m.start,
        paint_to(written, m) == m.end,
{
}

/// A match that begins inside written text is coloured only from where the
/// written text ends.
pub proof fn lemma_overlapping_span_is_clipped(written: int, m: GrepMatch)
    requires
        m.start < written,
    ensures
        paint_from(written, m) == written,
        paint_to(written, m) == if m.end < written {
            written
        } else {
            m.end as int
        },
{
}

/// The code that colours a file name.
pub fn colour_file_code() -> (code: &'static str)
    ensures
        code@ == colour_file(),
{
    let code = "\x1b[35m";
    proof {
        reveal_strlit("\x1b[35m");
    }
    code
}

/// The code that colours a line number.
pub fn colour_line_code() -> (code: &'static str)
    ensures
        code@ == colour_line(),
{
    let code = "\x1b[32m";
    proof {
        reveal_strlit("\x1b[32m");
    }
    code
}

/// The code that ends a coloured run.
pub fn colour_end_code() -> (code: &'static str)
    ensures
        code@ == colour_end(),
{
    let code = "\x1b[m";
    proof {
        reveal_strlit("\x1b[m");
    }
    code
}

/// The colour code for the matches of the pattern at `pattern_index`.
pub fn match_colour_code(pattern_index: usize) -> (code: &'static str)
    ensures
        code@ == match_colour(pattern_index),
{
    let slot = pattern_index % PALETTE_SIZE;
    proof {
        reveal_strlit("\x1b[1;31m");
        reveal_strlit("\x1b[33m");
        reveal_strlit("\x1b[1;34m");
        reveal_strlit("\x1b[32m");
        reveal_strlit("\x1b[35m");
    }
    let code = if slot == 0 {
        "\x1b[1;31m"
    } else if slot == 1 {
        "\x1b[33m"
    } else if slot == 2 {
        "\x1b[1;34m"
    } else if slot == 3 {
        "\x1b[32m"
    } else {
        "\x1b[35m"
    };
    code
}

/// Writes out `line` with every match wrapped in the colour of its pattern.
/// A match that overlaps text already written is coloured only from where
/// that text ends.
pub fn colour_match_line(line: &str, matches: &[GrepMatch]) -> (out: String)
    requires
        spans_fit(matches@, line@),
    ensures
        out@ == coloured_line(line@, matches@),
{
    let mut out = String::new();
    let mut last_end: usize = 0;
    let len = str_byte_len(line);
    let count = matches.len();
    let mut i: usize = 0;
    proof {
        lemma_spans_fit_front(matches@, line@, 0);
        lemma_written_to(line@, matches@.take(0));
    }
    while i < count
        invariant
            i <= count == matches@.len(),
            len == byte_len(line@),
            spans_fit(matches@, line@),
            out@ == runs(line@, matches@.take(i as int), true),
            last_end == written_to(matches@.take(i as int)),
            on_boundary(line@, last_end as int),
        decreases count - i,
    {
        let m = matches[i];
        let ghost done = matches@.take(i as int);
        let ghost next = matches@.take(i as int + 1);
        proof {
            assert(next.drop_last() == done);
            lemma_spans_fit_front(matches@, line@, i as int + 1);
            lemma_written_to(line@, next);
        }
        let m_start = if m.start < last_end {
            last_end
        } else {
            m.start
        };
        let m_end = if m.end < m_start {
            m_start
        } else {
            m.end
        };
        out.append(substr(line, last_end, m_start));
        out.append(match_colour_code(m.pattern_index));
        out.append(substr(line, m_start, m_end));
        out.append(colour_end_code());
        last_end = m_end;
        i += 1;
    }
    proof {
        assert(matches@.take(count as int) == matches@);
        lemma_byte_slice_all(line@);
    }
    out.append(substr(line, last_end, len));
    out
}

} // verus!
