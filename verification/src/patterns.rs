//! The set of search patterns of one run, and the matches they find in a
//! line.

use crate::command_options::CommandOptions;
use crate::escape::translate_literal;
use crate::escape::translated;
use crate::matcher::regex_compiles;
use crate::matcher::span_in_text;
use crate::matcher::successive_spans;
use crate::matcher::Matcher;
use crate::matcher::PatternError;
use vstd::prelude::*;
use vstd::string::StringExecFns;

verus! {

/// One match in a line: which pattern found it, and the byte offsets where
/// it starts and ends.
#[derive(Debug, Clone, Copy, PartialEq, Eq, Structural)]
pub struct GrepMatch {
    pub pattern_index: usize,
    pub start: usize,
    pub end: usize,
}

/// Every span lies inside `text`, with both ends between characters.
pub open spec fn spans_fit(spans: Seq<GrepMatch>, text: Seq<char>) -> bool {
    forall|i: int|
        0 <= i < spans.len() ==> span_in_text(
            (#[trigger] spans[i]).start as int,
            spans[i].end as int,
            text,
        )
}

/// Spans that fit a text still fit when some are left off the end.
pub proof fn lemma_spans_fit_front(spans: Seq<GrepMatch>, text: Seq<char>, n: int)
    requires
        spans_fit(spans, text),
        0 <= n <= spans.len(),
    ensures
        spans_fit(spans.take(n), text),
{
    assert forall|i: int| 0 <= i < n implies span_in_text(
        (#[trigger] spans.take(n)[i]).start as int,
        spans.take(n)[i].end as int,
        text,
    ) by {
        assert(spans.take(n)[i] == spans[i]);
    }
}

/// The spans are in ascending order of their start offsets.
pub open spec fn ordered_by_start(spans: Seq<GrepMatch>) -> bool {
    forall|i: int, j: int|
        0 <= i < j < spans.len() ==> (#[trigger] spans[i]).start <= (#[trigger] spans[j]).start
}

/// Where a span starting at `start` goes into an ordered list: behind the
/// last span that starts no later.
pub open spec fn slot_for(spans: Seq<GrepMatch>, start: usize) -> int
    decreases spans.len(),
{
    if spans.len() == 0 {
        0
    } else if spans.last().start <= start {
        spans.len() as int
    } else {
        slot_for(spans.drop_last(), start)
    }
}

/// `spans` with `m` put into its slot.
pub open spec fn with_span(spans: Seq<GrepMatch>, m: GrepMatch) -> Seq<GrepMatch> {
    spans.insert(slot_for(spans, m.start), m)
}

/// The spans in ascending order of start; spans that start at the same
/// offset keep the order they had.
pub open spec fn sorted_by_start(spans: Seq<GrepMatch>) -> Seq<GrepMatch>
    decreases spans.len(),
{
    if spans.len() == 0 {
        Seq::empty()
    } else {
        with_span(sorted_by_start(spans.drop_last()), spans.last())
    }
}

/// The matches of one pattern, labelled with the pattern's index.
pub open spec fn labelled(found: Seq<(usize, usize)>, pattern_index: usize) -> Seq<GrepMatch> {
    Seq::new(
        found.len(),
        |i: int| GrepMatch { pattern_index, start: found[i].0, end: found[i].1 },
    )
}

/// The matches of all patterns in `text`, pattern after pattern.
pub open spec fn all_spans(patterns: Seq<Matcher>, text: Seq<char>) -> Seq<GrepMatch>
    decreases patterns.len(),
{
    if patterns.len() == 0 {
        Seq::empty()
    } else {
        all_spans(patterns.drop_last(), text) + labelled(
            patterns.last().spans(text),
            (patterns.len() - 1) as usize,
        )
    }
}

/// The slot lies inside the list or at its end; every span from the slot
/// on starts later than `start`, and the span before the slot does not.
pub proof fn lemma_slot_in_range(spans: Seq<GrepMatch>, start: usize)
    ensures
        0 <= slot_for(spans, start) <= spans.len(),
        forall|i: int|
            slot_for(spans, start) <= i < spans.len() ==> (#[trigger] spans[i]).start > start,
        slot_for(spans, start) > 0 ==> spans[slot_for(spans, start) - 1].start <= start,
    decreases spans.len(),
{
    if spans.len() > 0 && spans.last().start > start {
        let front = spans.drop_last();
        lemma_slot_in_range(front, start);
        assert forall|i: int| slot_for(spans, start) <= i < spans.len() implies (
        #[trigger] spans[i]).start > start by {
            if i < front.len() {
                assert(spans[i] == front[i]);
            }
        }
    }
}

/// Putting a span into its slot keeps an ordered list ordered.
pub proof fn lemma_with_span_ordered(spans: Seq<GrepMatch>, m: GrepMatch)
    requires
        ordered_by_start(spans),
    ensures
        ordered_by_start(with_span(spans, m)),
        with_span(spans, m).len() == spans.len() + 1,
        with_span(spans, m).to_multiset() == spans.to_multiset().insert(m),
{
    lemma_slot_in_range(spans, m.start);
    let at = slot_for(spans, m.start);
    let out = with_span(spans, m);
    assert forall|i: int, j: int| 0 <= i < j < out.len() implies (#[trigger] out[i]).start
        <= (#[trigger] out[j]).start by {
    }
    vstd::seq_lib::to_multiset_insert(spans, at, m);
}

/// Sorting puts the spans in ascending order of start and neither adds nor
/// loses one.
pub proof fn lemma_sorted_by_start(spans: Seq<GrepMatch>)
    ensures
        ordered_by_start(sorted_by_start(spans)),
        sorted_by_start(spans).len() == spans.len(),
        sorted_by_start(spans).to_multiset() == spans.to_multiset(),
    decreases spans.len(),
{
    if spans.len() == 0 {
        assert(spans == Seq::<GrepMatch>::empty());
    } else {
        lemma_sorted_by_start(spans.drop_last());
        lemma_with_span_ordered(sorted_by_start(spans.drop_last()), spans.last());
        assert(spans.drop_last().push(spans.last()) == spans);
        vstd::seq_lib::to_multiset_build(spans.drop_last(), spans.last());
    }
}

/// A list that is already ordered is left as it is.
pub proof fn lemma_sorted_of_ordered(spans: Seq<GrepMatch>)
    requires
        ordered_by_start(spans),
    ensures
        sorted_by_start(spans) == spans,
    decreases spans.len(),
{
    if spans.len() > 0 {
        let front = spans.drop_last();
        lemma_sorted_of_ordered(front);
    }
}

/// The matches that one expression finds one after the other are in order
/// as they are: sorting them changes nothing.
pub proof fn lemma_successive_matches_are_sorted(
    found: Seq<(usize, usize)>,
    pattern_index: usize,
    text: Seq<char>,
)
    requires
        successive_spans(found, text),
    ensures
        ordered_by_start(labelled(found, pattern_index)),
        sorted_by_start(labelled(found, pattern_index)) == labelled(found, pattern_index),
        spans_fit(labelled(found, pattern_index), text),
{
    let spans = labelled(found, pattern_index);
    assert forall|i: int, j: int| 0 <= i < j < spans.len() implies (#[trigger] spans[i]).start
        <= (#[trigger] spans[j]).start by {
        assert(found[i].0 <= found[i].1 <= found[j].0);
    }
    lemma_sorted_of_ordered(spans);
}

/// Puts `m` into its slot in `list`.
fn insert_by_start(list: &mut Vec<GrepMatch>, m: GrepMatch)
    ensures
        final(list)@ == with_span(old(list)@, m),
{
    let mut at = list.len();
    proof {
        assert(list@.take(list@.len() as int) == list@);
    }
    while at > 0 && list[at - 1].start > m.start
        invariant
            at <= list.len(),
            list@ == old(list)@,
            slot_for(list@, m.start) == slot_for(list@.take(at as int), m.start),
        decreases at,
    {
        proof {
            assert(list@.take(at as int).drop_last() == list@.take(at as int - 1));
        }
        at -= 1;
    }
    list.insert(at, m);
}

/// Makes the outcome of compiling a search pattern, which the user gave as
/// `given`, name that pattern if it is a failure.
pub fn name_search_pattern(given: &str, compiled: Result<Matcher, PatternError>) -> (r: Result<
    Matcher,
    PatternError,
>)
    ensures
        match compiled {
            Ok(m) => r == Ok::<Matcher, PatternError>(m),
            Err(_) => r matches Err(PatternError::BadSearch { pattern }) && pattern@ == given@,
        },
{
    match compiled {
        Ok(m) => Ok(m),
        Err(_) => Err(PatternError::BadSearch { pattern: String::from_str(given) }),
    }
}

/// Compiles a fixed string into a matcher for exactly that string. Fails
/// exactly when the quoted string does not compile.
pub fn fixed_to_regex(fixed: &str, case_insensitive: bool) -> (r: Result<Matcher, PatternError>)
    ensures
        r is Ok <==> regex_compiles(translated(fixed@, false), case_insensitive),
        match r {
            Ok(m) => m.source() == translated(fixed@, false) && m.fold_case() == case_insensitive,
            Err(e) => e matches PatternError::BadSearch { pattern } && pattern@ == fixed@,
        },
{
    let quoted = translate_literal(fixed);
    name_search_pattern(fixed, Matcher::new(quoted.as_str(), case_insensitive))
}

/// Compiles a regular expression. Fails exactly when it does not compile.
pub fn pattern_to_regex(pattern: &str, case_insensitive: bool) -> (r: Result<Matcher, PatternError>)
    ensures
        r is Ok <==> regex_compiles(pattern@, case_insensitive),
        match r {
            Ok(m) => m.source() == pattern@ && m.fold_case() == case_insensitive,
            Err(e) => e matches PatternError::BadSearch { pattern: named } && named@ == pattern@,
        },
{
    name_search_pattern(pattern, Matcher::new(pattern, case_insensitive))
}

/// The compiled search patterns of one run: the fixed strings first, then
/// the regular expressions, each in the order it was given. A pattern's
/// position is its index.
#[derive(Debug)]
pub struct GrepPatterns {
    pub patterns: Vec<Matcher>,
}

impl GrepPatterns {
    /// How many patterns the request holds.
    pub open spec fn wanted(opt: &CommandOptions) -> nat {
        opt.fixed_strings@.len() + opt.regex_patterns@.len()
    }

    /// The text of the `i`-th pattern as the user gave it.
    pub open spec fn given_text(opt: &CommandOptions, i: int) -> Seq<char> {
        if i < opt.fixed_strings@.len() {
            opt.fixed_strings@[i]@
        } else {
            opt.regex_patterns@[i - opt.fixed_strings@.len()]@
        }
    }

    /// The expression that is compiled for the `i`-th pattern: a fixed
    /// string is quoted, a regular expression is taken as it is.
    pub open spec fn expression(opt: &CommandOptions, i: int) -> Seq<char> {
        if i < opt.fixed_strings@.len() {
            translated(opt.fixed_strings@[i]@, false)
        } else {
            opt.regex_patterns@[i - opt.fixed_strings@.len()]@
        }
    }

    /// Whether the `i`-th pattern of the request compiles.
    pub open spec fn compiles(opt: &CommandOptions, i: int) -> bool {
        regex_compiles(Self::expression(opt, i), opt.grep_ignore_case)
    }

    /// The first `n` patterns of `self` are those of `opt`.
    pub open spec fn holds_first(&self, opt: &CommandOptions, n: int) -> bool {
        &&& self.patterns@.len() == n
        &&& forall|i: int|
            0 <= i < n ==> (#[trigger] self.patterns@[i]).source() == Self::expression(opt, i)
                && self.patterns@[i].fold_case() == opt.grep_ignore_case
    }

    /// Compiles every pattern of the request. The construction succeeds
    /// exactly when every pattern compiles; else the first pattern that does
    /// not compile ends it with an error that names that pattern. A request
    /// without patterns gives an empty set.
    pub fn new(opt: &CommandOptions) -> (r: Result<GrepPatterns, PatternError>)
        ensures
            r is Ok <==> forall|i: int| 0 <= i < Self::wanted(opt) ==> Self::compiles(opt, i),
            r matches Ok(set) ==> set.holds_first(opt, Self::wanted(opt) as int),
            r matches Err(e) ==> exists|k: int|
                0 <= k < Self::wanted(opt) && !Self::compiles(opt, k) && (forall|i: int|
                    0 <= i < k ==> Self::compiles(opt, i)) && (e matches PatternError::BadSearch {
                    pattern,
                } && pattern@ == #[trigger] Self::given_text(opt, k)),
    {
        let mut set = GrepPatterns { patterns: Vec::new() };
        let fixed_count = opt.fixed_strings.len();
        let mut i: usize = 0;
        while i < fixed_count
            invariant
                i <= fixed_count == opt.fixed_strings@.len(),
                set.holds_first(opt, i as int),
                forall|k: int| 0 <= k < i ==> Self::compiles(opt, k),
            decreases fixed_count - i,
        {
            match fixed_to_regex(opt.fixed_strings[i].as_str(), opt.grep_ignore_case) {
                Ok(m) => {
                    set.patterns.push(m);
                },
                Err(e) => {
                    assert(Self::given_text(opt, i as int) == opt.fixed_strings@[i as int]@);
                    assert(!Self::compiles(opt, i as int));
                    return Err(e);
                },
            }
            i += 1;
        }
        let regex_count = opt.regex_patterns.len();
        let mut j: usize = 0;
        while j < regex_count
            invariant
                fixed_count == opt.fixed_strings@.len(),
                j <= regex_count == opt.regex_patterns@.len(),
                set.holds_first(opt, fixed_count + j as int),
                forall|k: int| 0 <= k < fixed_count + j ==> Self::compiles(opt, k),
            decreases regex_count - j,
        {
            match pattern_to_regex(opt.regex_patterns[j].as_str(), opt.grep_ignore_case) {
                Ok(m) => {
                    set.patterns.push(m);
                },
                Err(e) => {
                    assert(Self::given_text(opt, fixed_count + j as int)
                        == opt.regex_patterns@[j as int]@);
                    assert(!Self::compiles(opt, fixed_count + j as int));
                    return Err(e);
                },
            }
            j += 1;
        }
        Ok(set)
    }

    /// What [`GrepPatterns::find_match`] returns for `text`.
    pub open spec fn matches_in(&self, text: Seq<char>) -> Seq<GrepMatch> {
        sorted_by_start(all_spans(self.patterns@, text))
    }

    /// Every match of every pattern in `line`, in ascending order of start.
    /// Matches that start at the same offset stay in pattern order. An empty
    /// result means that no pattern matches the line.
    pub fn find_match(&self, line: &str) -> (found: Vec<GrepMatch>)
        ensures
            found@ == self.matches_in(line@),
            spans_fit(found@, line@),
            ordered_by_start(found@),
    {
        let mut found: Vec<GrepMatch> = Vec::new();
        let count = self.patterns.len();
        let mut pattern_index: usize = 0;
        while pattern_index < count
            invariant
                pattern_index <= count == self.patterns@.len(),
                found@ == sorted_by_start(
                    all_spans(self.patterns@.take(pattern_index as int), line@),
                ),
                spans_fit(found@, line@),
                ordered_by_start(found@),
            decreases count - pattern_index,
        {
            let spans = self.patterns[pattern_index].find_all(line);
            let ghost before = all_spans(self.patterns@.take(pattern_index as int), line@);
            let ghost tagged = labelled(spans@, pattern_index);
            let mut k: usize = 0;
            while k < spans.len()
                invariant
                    k <= spans.len(),
                    tagged == labelled(spans@, pattern_index),
                    found@ == sorted_by_start(before + tagged.take(k as int)),
                    spans_fit(found@, line@),
                    ordered_by_start(found@),
                    successive_spans(spans@, line@),
                decreases spans.len() - k,
            {
                let (start, end) = spans[k];
                let m = GrepMatch { pattern_index, start, end };
                proof {
                    let sofar = before + tagged.take(k as int);
                    let next = before + tagged.take(k as int + 1);
                    assert(next.drop_last() == sofar);
                    lemma_with_span_ordered(found@, m);
                    lemma_slot_in_range(found@, m.start);
                }
                insert_by_start(&mut found, m);
                k += 1;
            }
            proof {
                assert(tagged.take(spans@.len() as int) == tagged);
                let upto = self.patterns@.take(pattern_index as int + 1);
                assert(upto.drop_last() == self.patterns@.take(pattern_index as int));
            }
            pattern_index += 1;
        }
        proof {
            assert(self.patterns@.take(count as int) == self.patterns@);
        }
        found
    }

    /// Quotes `text` so that, as a pattern, it matches exactly that text.
    pub fn quote_regex(text: &str) -> (out: String)
        ensures
            out@ == translated(text@, false),
    {
        translate_literal(text)
    }
}

} // verus!
