//! Searching the lines of one file.
//!
//! A [`GrepInFile`] is fed the lines of a file in order. It remembers the
//! last few lines that did not match, so that they can be shown before the
//! next match, and counts down the lines that are still to be shown after
//! the last one.

use crate::colour::colour_match_line;
use crate::colour::coloured_line;
use crate::command_options::CommandOptions;
use crate::lines::find_line;
use crate::lines::is_binary;
use crate::lines::line_slice;
use crate::lines::lines_from;
use crate::lines::lines_of;
use crate::lines::looks_binary;
use crate::output_line::format_match_line;
use crate::output_line::match_line;
use crate::patterns::spans_fit;
use crate::patterns::GrepMatch;
use crate::patterns::GrepPatterns;
use std::collections::VecDeque;
use vstd::prelude::*;
use vstd::string::StringExecFns;
use vstd::utf8::decode_utf8;
use vstd::utf8::encode_utf8_decode_utf8;
use vstd::utf8::valid_utf8;

verus! {

/// What stays the same while a file is searched.
pub struct SessionConfig {
    /// The file's path, as it is shown.
    pub path: Seq<char>,
    /// Whether padding is made visible.
    pub debug: bool,
    /// How many lines are shown before a match.
    pub num_before: nat,
    /// How many lines are shown after a match.
    pub num_after: nat,
}

/// What changes from line to line.
pub struct SessionState {
    /// The lines held back to be shown before the next match, oldest
    /// first.
    pub before: Seq<Seq<char>>,
    /// The number of the last line that was fed; the first line is line 1.
    pub line_number: nat,
    /// How many of the coming lines are still shown as lines after a match.
    pub pending_after: nat,
}

/// The views of a list of strings.
pub open spec fn texts(lines: Seq<String>) -> Seq<Seq<char>> {
    Seq::new(lines.len(), |i: int| lines[i]@)
}

/// The last `n` of `lines`, or all of them if there are no more than `n`.
pub open spec fn keep_last(lines: Seq<Seq<char>>, n: nat) -> Seq<Seq<char>> {
    if lines.len() > n {
        lines.subrange(lines.len() - n, lines.len() as int)
    } else {
        lines
    }
}

/// The output lines for the lines held back before a match in line
/// `number`: they are the `before.len()` lines just before it.
pub open spec fn context_before(cfg: SessionConfig, before: Seq<Seq<char>>, number: nat) -> Seq<
    Seq<char>,
> {
    Seq::new(
        before.len(),
        |i: int|
            match_line(cfg.path, cfg.debug, (number - before.len() + i) as nat, seq!['-'], before[i]),
    )
}

/// What is written when `line`, in which `spans` were found, follows state
/// `st`.
pub open spec fn step_output(
    cfg: SessionConfig,
    st: SessionState,
    line: Seq<char>,
    spans: Seq<GrepMatch>,
) -> Seq<Seq<char>> {
    let number = st.line_number + 1;
    if spans.len() == 0 {
        if st.pending_after > 0 {
            seq![match_line(cfg.path, cfg.debug, number, seq!['+'], line)]
        } else {
            Seq::empty()
        }
    } else {
        context_before(cfg, st.before, number).push(
            match_line(cfg.path, cfg.debug, number, seq![':'], coloured_line(line, spans)),
        )
    }
}

/// The state after `line`, in which `spans` were found, follows state
/// `st`.
pub open spec fn step_state(
    cfg: SessionConfig,
    st: SessionState,
    line: Seq<char>,
    spans: Seq<GrepMatch>,
) -> SessionState {
    if spans.len() == 0 {
        SessionState {
            before: if cfg.num_before > 0 {
                keep_last(st.before.push(line), cfg.num_before)
            } else {
                st.before
            },
            line_number: st.line_number + 1,
            pending_after: if st.pending_after > 0 {
                (st.pending_after - 1) as nat
            } else {
                0
            },
        }
    } else {
        SessionState {
            before: Seq::empty(),
            line_number: st.line_number + 1,
            pending_after: cfg.num_after,
        }
    }
}

/// The state of a search that has not been fed a line.
pub open spec fn fresh_state() -> SessionState {
    SessionState { before: Seq::empty(), line_number: 0, pending_after: 0 }
}

/// The state after the lines of `fed`, each given with the matches found
/// in it, were fed to a search in state `start`.
pub open spec fn feed_all(
    cfg: SessionConfig,
    start: SessionState,
    fed: Seq<(Seq<char>, Seq<GrepMatch>)>,
) -> SessionState
    decreases fed.len(),
{
    if fed.len() == 0 {
        start
    } else {
        step_state(cfg, feed_all(cfg, start, fed.drop_last()), fed.last().0, fed.last().1)
    }
}

/// No more lines are held back than are shown before a match, and no more
/// lines are pending than are shown after one.
pub open spec fn within_bounds(cfg: SessionConfig, st: SessionState) -> bool {
    &&& st.before.len() <= cfg.num_before
    &&& st.before.len() <= st.line_number
    &&& st.pending_after <= cfg.num_after
}

/// A step keeps the state within its bounds and counts one line.
pub proof fn lemma_step_stays_within_bounds(
    cfg: SessionConfig,
    st: SessionState,
    line: Seq<char>,
    spans: Seq<GrepMatch>,
)
    requires
        within_bounds(cfg, st),
    ensures
        within_bounds(cfg, step_state(cfg, st, line, spans)),
        step_state(cfg, st, line, spans).line_number == st.line_number + 1,
        step_output(cfg, st, line, spans).len() <= st.before.len() + 1,
        spans.len() > 0 ==> step_output(cfg, st, line, spans).len() == st.before.len() + 1,
{
}

/// In a search that started afresh, the lines held back are the last lines
/// that were fed, none of them had a match, and each of them will be
/// written under its own number: the line written as line `j + 1` is the
/// line that was fed after `j` others.
pub proof fn lemma_held_lines_are_the_last_lines(
    cfg: SessionConfig,
    fed: Seq<(Seq<char>, Seq<GrepMatch>)>,
)
    ensures
        ({
            let st = feed_all(cfg, fresh_state(), fed);
            let first = fed.len() - st.before.len();
            &&& st.line_number == fed.len()
            &&& within_bounds(cfg, st)
            &&& forall|j: int|
                first <= j < fed.len() ==> st.before[j - first] == (#[trigger] fed[j]).0
                    && fed[j].1.len() == 0
            &&& forall|j: int|
                first <= j < fed.len() ==> context_before(
                    cfg,
                    st.before,
                    (fed.len() + 1) as nat,
                )[j - first] == match_line(
                    cfg.path,
                    cfg.debug,
                    (j + 1) as nat,
                    seq!['-'],
                    (#[trigger] fed[j]).0,
                )
        }),
    decreases fed.len(),
{
    if fed.len() > 0 {
        let front = fed.drop_last();
        let before = feed_all(cfg, fresh_state(), front);
        let st = feed_all(cfg, fresh_state(), fed);
        lemma_held_lines_are_the_last_lines(cfg, front);
        lemma_step_stays_within_bounds(cfg, before, fed.last().0, fed.last().1);
        let first = fed.len() - st.before.len();
        let was_first = front.len() - before.before.len();
        let more = before.before.push(fed.last().0);
        assert forall|j: int| first <= j < fed.len() implies st.before[j - first] == (
        #[trigger] fed[j]).0 && fed[j].1.len() == 0 by {
            if j < front.len() {
                assert(before.before[j - was_first] == front[j].0);
            }
        }
    }
}

/// How far the search of a list of lines got.
pub struct RunResult {
    /// The state behind the last line that was fed.
    pub state: SessionState,
    /// Everything that was written.
    pub output: Seq<Seq<char>>,
    /// The number of the line that could not be decoded, if there was one.
    /// No line behind it is fed.
    pub failed_at: Option<nat>,
}

/// Feeds one more line, given as bytes, unless an earlier line could not be
/// decoded. A line that is not valid UTF-8 is not fed: its number is
/// recorded instead.
pub open spec fn run_step(
    cfg: SessionConfig,
    patterns: &GrepPatterns,
    sofar: RunResult,
    bytes: Seq<u8>,
) -> RunResult {
    if sofar.failed_at is Some {
        sofar
    } else if !valid_utf8(bytes) {
        RunResult {
            state: sofar.state,
            output: sofar.output,
            failed_at: Some(sofar.state.line_number + 1),
        }
    } else {
        let line = decode_utf8(bytes);
        let spans = patterns.matches_in(line);
        RunResult {
            state: step_state(cfg, sofar.state, line, spans),
            output: sofar.output + step_output(cfg, sofar.state, line, spans),
            failed_at: None,
        }
    }
}

/// Feeds `lines` one after the other, starting in state `start`, until one
/// of them is not valid UTF-8.
pub open spec fn run_lines(
    cfg: SessionConfig,
    patterns: &GrepPatterns,
    start: SessionState,
    lines: Seq<Seq<u8>>,
) -> RunResult
    decreases lines.len(),
{
    if lines.len() == 0 {
        RunResult { state: start, output: Seq::empty(), failed_at: None }
    } else {
        run_step(cfg, patterns, run_lines(cfg, patterns, start, lines.drop_last()), lines.last())
    }
}

/// Once a line could not be decoded, the lines behind it change nothing.
pub proof fn lemma_run_stops_at_failure(
    cfg: SessionConfig,
    patterns: &GrepPatterns,
    start: SessionState,
    head: Seq<Seq<u8>>,
    tail: Seq<Seq<u8>>,
)
    requires
        run_lines(cfg, patterns, start, head).failed_at is Some,
    ensures
        run_lines(cfg, patterns, start, head + tail) == run_lines(cfg, patterns, start, head),
    decreases tail.len(),
{
    if tail.len() > 0 {
        assert((head + tail).drop_last() == head + tail.drop_last());
        lemma_run_stops_at_failure(cfg, patterns, start, head, tail.drop_last());
    }
}

/// A file with a line that is not valid UTF-8.
#[derive(Debug)]
pub struct LineDecodeError {
    /// The file's path, as it is shown.
    pub path: String,
    /// The number of the line that could not be decoded.
    pub line_number: usize,
}

impl LineDecodeError {
    /// The line shown to the user for this error.
    pub open spec fn message_text(self) -> Seq<char> {
        "Error reading "@ + self.path@ + " - stream did not contain valid UTF-8"@
    }

    /// The line shown to the user for this error.
    pub fn message(&self) -> (out: String)
        ensures
            out@ == self.message_text(),
    {
        let mut out = String::from_str("Error reading ");
        out.append(self.path.as_str());
        out.append(" - stream did not contain valid UTF-8");
        out
    }
}

/// What the search of a file's content gave.
#[derive(Debug)]
pub struct SearchOutcome {
    /// The lines to write, in order.
    pub lines: Vec<String>,
    /// Set if the search ended early at a line that could not be decoded.
    pub error: Option<LineDecodeError>,
}

/// The search of one file.
pub struct GrepInFile<'caller> {
    opt: &'caller CommandOptions,
    patterns: &'caller GrepPatterns,
    file_path: String,
    num_before: usize,
    before_lines: VecDeque<String>,
    line_number: usize,
    num_after: usize,
    required_after: usize,
}

impl<'caller> GrepInFile<'caller> {
    /// No more lines are held back than are wanted, nor more than were
    /// fed.
    #[verifier::type_invariant]
    spec fn well_formed(self) -> bool {
        &&& self.before_lines@.len() <= self.num_before
        &&& self.before_lines@.len() <= self.line_number
    }

    /// The fixed part of this search.
    pub closed spec fn config(&self) -> SessionConfig {
        SessionConfig {
            path: self.file_path@,
            debug: self.opt.debug,
            num_before: self.num_before as nat,
            num_after: self.num_after as nat,
        }
    }

    /// Where this search stands.
    pub closed spec fn state(&self) -> SessionState {
        SessionState {
            before: texts(self.before_lines@),
            line_number: self.line_number as nat,
            pending_after: self.required_after as nat,
        }
    }

    /// The patterns that are looked for.
    pub closed spec fn patterns(&self) -> &GrepPatterns {
        self.patterns
    }

    /// Starts the search of the file shown as `file_path`: no line has been
    /// fed, nothing is held back, no line after a match is pending.
    pub fn new(
        opt: &'caller CommandOptions,
        file_path: &str,
        patterns: &'caller GrepPatterns,
    ) -> (session: GrepInFile<'caller>)
        ensures
            session.config() == (SessionConfig {
                path: file_path@,
                debug: opt.debug,
                num_before: match opt.grep_lines_before {
                    Some(n) => n as nat,
                    None => 0,
                },
                num_after: match opt.grep_lines_after {
                    Some(n) => n as nat,
                    None => 0,
                },
            }),
            session.state() == (SessionState {
                before: Seq::empty(),
                line_number: 0,
                pending_after: 0,
            }),
            session.patterns() == patterns,
    {
        let session = GrepInFile {
            opt,
            patterns,
            file_path: String::from_str(file_path),
            num_before: match opt.grep_lines_before {
                Some(n) => n,
                None => 0,
            },
            before_lines: VecDeque::new(),
            line_number: 0,
            num_after: match opt.grep_lines_after {
                Some(n) => n,
                None => 0,
            },
            required_after: 0,
        };
        assert(texts(session.before_lines@) == Seq::<Seq<char>>::empty());
        session
    }

    /// Lays out one line of output of this search.
    pub fn render_match_line(&self, line_number: usize, sep: &str, line: &str) -> (out: String)
        ensures
            out@ == match_line(
                self.config().path,
                self.config().debug,
                line_number as nat,
                sep@,
                line@,
            ),
    {
        format_match_line(self.file_path.as_str(), self.opt.debug, line_number, sep, line)
    }

    /// Feeds the next line of the file, in which `spans` were found, and
    /// returns what is to be written for it.
    ///
    /// A line without a match is held back if lines before a match are
    /// wanted, and written with a `+` if lines after the last match are
    /// still pending. A line with a match is written with a `:`, behind the
    /// lines held back, which are written with a `-`.
    pub fn feed_matched_line(&mut self, line: &str, spans: &[GrepMatch]) -> (out: Vec<String>)
        requires
            old(self).state().line_number < usize::MAX,
            spans_fit(spans@, line@),
        ensures
            final(self).config() == old(self).config(),
            final(self).patterns() == old(self).patterns(),
            final(self).state() == step_state(
                old(self).config(),
                old(self).state(),
                line@,
                spans@,
            ),
            texts(out@) == step_output(old(self).config(), old(self).state(), line@, spans@),
    {
        proof {
            use_type_invariant(&*self);
        }
        let ghost cfg = self.config();
        let ghost st = self.state();
        let mut out: Vec<String> = Vec::new();
        self.line_number += 1;
        if spans.len() == 0 {
            if self.num_before > 0 {
                let mut held: VecDeque<String> = VecDeque::new();
                core::mem::swap(&mut held, &mut self.before_lines);
                if held.len() == self.num_before {
                    held.pop_front();
                }
                held.push_back(String::from_str(line));
                core::mem::swap(&mut held, &mut self.before_lines);
                assert(texts(self.before_lines@) == keep_last(
                    st.before.push(line@),
                    cfg.num_before,
                ));
            }
            if self.required_after > 0 {
                out.push(self.render_match_line(self.line_number, "+", line));
                self.required_after -= 1;
                proof {
                    reveal_strlit("+");
                    assert("+"@ == seq!['+']);
                }
            }
        } else {
            let mut held: VecDeque<String> = VecDeque::new();
            core::mem::swap(&mut held, &mut self.before_lines);
            let count = held.len();
            let base = self.line_number - count;
            let mut i: usize = 0;
            proof {
                reveal_strlit("-");
            }
            while i < count
                invariant
                    i <= count == held@.len(),
                    base + count == self.line_number == st.line_number + 1,
                    self.config() == cfg,
                    texts(held@) == st.before,
                    "-"@ == seq!['-'],
                    out@.len() == i,
                    forall|k: int|
                        0 <= k < i ==> (#[trigger] out@[k])@ == context_before(
                            cfg,
                            st.before,
                            st.line_number + 1,
                        )[k],
                decreases count - i,
            {
                let shown = self.render_match_line(base + i, "-", held[i].as_str());
                out.push(shown);
                i += 1;
            }
            let coloured = colour_match_line(line, spans);
            out.push(self.render_match_line(self.line_number, ":", coloured.as_str()));
            self.required_after = self.num_after;
            proof {
                reveal_strlit(":");
                assert(":"@ == seq![':']);
                assert(texts(self.before_lines@) == Seq::<Seq<char>>::empty());
            }
        }
        out
    }

    /// Feeds the next line of the file and returns what is to be written
    /// for it: looks for the patterns in it, then goes on as
    /// [`GrepInFile::feed_matched_line`] does.
    pub fn feed_line(&mut self, line: &str) -> (out: Vec<String>)
        requires
            old(self).state().line_number < usize::MAX,
        ensures
            final(self).config() == old(self).config(),
            final(self).patterns() == old(self).patterns(),
            final(self).state() == step_state(
                old(self).config(),
                old(self).state(),
                line@,
                old(self).patterns().matches_in(line@),
            ),
            texts(out@) == step_output(
                old(self).config(),
                old(self).state(),
                line@,
                old(self).patterns().matches_in(line@),
            ),
    {
        let spans = self.patterns.find_match(line);
        self.feed_matched_line(line, spans.as_slice())
    }

    /// Feeds the next line of the file, given as bytes. A line that is not
    /// valid UTF-8 is refused and changes nothing.
    pub fn feed_bytes(&mut self, bytes: &[u8]) -> (r: Result<Vec<String>, LineDecodeError>)
        requires
            old(self).state().line_number < usize::MAX,
        ensures
            final(self).config() == old(self).config(),
            final(self).patterns() == old(self).patterns(),
            r is Ok <==> valid_utf8(bytes@),
            r matches Ok(out) ==> {
                let line = decode_utf8(bytes@);
                let spans = old(self).patterns().matches_in(line);
                &&& final(self).state() == step_state(
                    old(self).config(),
                    old(self).state(),
                    line,
                    spans,
                )
                &&& texts(out@) == step_output(old(self).config(), old(self).state(), line, spans)
            },
            r matches Err(e) ==> {
                &&& final(self).state() == old(self).state()
                &&& e.line_number == old(self).state().line_number + 1
                &&& e.path@ == old(self).config().path
            },
    {
        match core::str::from_utf8(bytes) {
            Err(_) => Err(
                LineDecodeError { path: self.file_path.clone(), line_number: self.line_number + 1 },
            ),
            Ok(line) => {
                proof {
                    encode_utf8_decode_utf8(line@);
                }
                Ok(self.feed_line(line))
            },
        }
    }

    /// Searches the whole content of the file.
    ///
    /// Content that looks binary is skipped: nothing is written and that is
    /// no error. Otherwise the lines are fed in order. A line that is not
    /// valid UTF-8 ends the search with an error; what was written for the
    /// lines before it stays.
    pub fn search(&mut self, content: &[u8]) -> (outcome: SearchOutcome)
        requires
            old(self).state().line_number + content@.len() <= usize::MAX,
        ensures
            final(self).config() == old(self).config(),
            final(self).patterns() == old(self).patterns(),
            looks_binary(content@) ==> {
                &&& final(self).state() == old(self).state()
                &&& outcome.lines@.len() == 0
                &&& outcome.error is None
            },
            !looks_binary(content@) ==> {
                let run = run_lines(
                    old(self).config(),
                    old(self).patterns(),
                    old(self).state(),
                    lines_of(content@),
                );
                &&& final(self).state() == run.state
                &&& texts(outcome.lines@) == run.output
                &&& match outcome.error {
                    None => run.failed_at is None,
                    Some(e) => run.failed_at == Some(e.line_number as nat) && e.path@
                        == old(self).config().path,
                }
            },
    {
        let mut out: Vec<String> = Vec::new();
        if is_binary(content) {
            return SearchOutcome { lines: out, error: None };
        }
        let ghost cfg = self.config();
        let ghost pats = self.patterns();
        let ghost st0 = self.state();
        let ghost mut done: Seq<Seq<u8>> = Seq::empty();
        let len = content.len();
        let mut start: usize = 0;
        assert(texts(out@) == Seq::<Seq<char>>::empty());
        while start < len
            invariant
                start <= len == content@.len(),
                st0.line_number + len <= usize::MAX,
                !looks_binary(content@),
                cfg == old(self).config(),
                pats == old(self).patterns(),
                st0 == old(self).state(),
                self.config() == cfg,
                self.patterns() == pats,
                self.state().line_number <= st0.line_number + start,
                lines_of(content@) == done + lines_from(content@, start as int),
                run_lines(cfg, pats, st0, done) == (RunResult {
                    state: self.state(),
                    output: texts(out@),
                    failed_at: None,
                }),
            decreases len - start,
        {
            let (stop, end) = find_line(content, start);
            let bytes = line_slice(content, start, stop);
            let ghost rest = lines_from(content@, end as int + 1);
            proof {
                assert(done + (seq![bytes@] + rest) == done.push(bytes@) + rest);
                assert(done.push(bytes@).drop_last() == done);
            }
            match self.feed_bytes(bytes) {
                Err(e) => {
                    proof {
                        lemma_run_stops_at_failure(cfg, pats, st0, done.push(bytes@), rest);
                    }
                    return SearchOutcome { lines: out, error: Some(e) };
                },
                Ok(more) => {
                    let ghost shown = texts(out@);
                    let ghost added = texts(more@);
                    let mut more = more;
                    out.append(&mut more);
                    assert(texts(out@) == shown + added);
                },
            }
            proof {
                done = done.push(bytes@);
            }
            start = if end == len {
                len
            } else {
                end + 1
            };
        }
        SearchOutcome { lines: out, error: None }
    }
}

} // verus!
