//! Compiled patterns.
//!
//! Compiling and running regular expressions is left to the `regex` crate.
//! A [`Matcher`] keeps the compiled expression together with the text and
//! the case flag it was compiled from, so that contracts can speak of what a
//! matcher accepts in terms of plain values.

use crate::text::on_boundary;
use regex::Regex;
use regex::RegexBuilder;
use vstd::prelude::*;
use vstd::string::StringExecFns;

verus! {

/// `regex::Regex`: a compiled expression. It is kept inside a [`Matcher`]
/// and only ever handed to the `regex` crate.
#[verifier::external_type_specification]
#[verifier::external_body]
pub struct ExRegex(Regex);

/// `regex::Error`: why an expression did not compile. Only its text is
/// used.
#[verifier::external_type_specification]
#[verifier::external_body]
pub struct ExRegexError(regex::Error);

/// Whether `RegexBuilder::build` accepts `pattern`, with case folding as
/// given and every other setting at its default: the pattern is a regular
/// expression, and its compiled form stays within the crate's size limit.
pub uninterp spec fn regex_compiles(pattern: Seq<char>, fold_case: bool) -> bool;

/// Whether the expression compiled from `pattern` matches somewhere in
/// `text`.
pub uninterp spec fn regex_is_match(pattern: Seq<char>, fold_case: bool, text: Seq<char>) -> bool;

/// The successive non-overlapping matches of the expression compiled from
/// `pattern` in `text`, each as a pair of byte offsets (start, end).
pub uninterp spec fn regex_find_all(pattern: Seq<char>, fold_case: bool, text: Seq<char>) -> Seq<
    (usize, usize),
>;

/// A span lies inside `text` and both its ends fall between characters.
pub open spec fn span_in_text(start: int, end: int, text: Seq<char>) -> bool {
    &&& start <= end
    &&& on_boundary(text, start)
    &&& on_boundary(text, end)
}

/// What is known of every list of matches that one expression finds in
/// `text`: each lies inside the text, and each begins no earlier than the
/// one before it ended.
pub open spec fn successive_spans(spans: Seq<(usize, usize)>, text: Seq<char>) -> bool {
    &&& forall|i: int|
        0 <= i < spans.len() ==> span_in_text(
            (#[trigger] spans[i]).0 as int,
            spans[i].1 as int,
            text,
        )
    &&& forall|i: int, j: int|
        0 <= i < j < spans.len() ==> (#[trigger] spans[i]).1 <= (#[trigger] spans[j]).0
}

/// Why a pattern was rejected.
#[derive(Debug)]
pub enum PatternError {
    /// An expression did not compile; `detail` is what the compiler said
    /// of it.
    BadExpression { pattern: String, detail: String },
    /// A search pattern did not compile; `pattern` is the text as the user
    /// gave it.
    BadSearch { pattern: String },
}

impl PatternError {
    /// The line shown to the user for this error.
    pub open spec fn message_text(self) -> Seq<char> {
        match self {
            PatternError::BadExpression { pattern, detail } => "bad pattern "@ + pattern@ + " - "@
                + detail@,
            PatternError::BadSearch { pattern } => "failed to compile regex for "@ + pattern@,
        }
    }

    /// The line shown to the user for this error.
    pub fn message(&self) -> (out: String)
        ensures
            out@ == self.message_text(),
    {
        match self {
            PatternError::BadExpression { pattern, detail } => {
                let mut out = String::from_str("bad pattern ");
                out.append(pattern.as_str());
                out.append(" - ");
                out.append(detail.as_str());
                out
            },
            PatternError::BadSearch { pattern } => {
                let mut out = String::from_str("failed to compile regex for ");
                out.append(pattern.as_str());
                out
            },
        }
    }
}

/// A compiled pattern, with the text and case flag it was compiled from.
/// A matcher is only ever made by compiling a pattern, so the three always
/// belong together.
#[derive(Debug)]
pub struct Matcher {
    regex: Regex,
    source: String,
    fold_case: bool,
}

/// Calls `RegexBuilder::new(pattern).case_insensitive(fold_case).build()`.
/// The build fails for a pattern that is no regular expression, and for one
/// whose compiled form is larger than the default size limit; whether it
/// succeeds depends on the pattern and the case flag alone, and is named by
/// [`regex_compiles`]. The matcher that comes back from a build that
/// succeeds remembers `pattern` and `fold_case`.
#[verifier::external_body]
fn build_regex(pattern: &str, fold_case: bool) -> (r: Result<Matcher, regex::Error>)
    ensures
        r is Ok <==> regex_compiles(pattern@, fold_case),
        r matches Ok(m) ==> m.source() == pattern@ && m.fold_case() == fold_case,
{
    match RegexBuilder::new(pattern).case_insensitive(fold_case).build() {
        Ok(regex) => Ok(Matcher { regex, source: pattern.to_string(), fold_case }),
        Err(e) => Err(e),
    }
}

/// Renders a `regex::Error` through its `Display` impl. Nothing is claimed
/// of the text.
#[verifier::external_body]
fn describe_error(e: &regex::Error) -> (out: String) {
    e.to_string()
}

/// Calls `Regex::is_match`: whether the expression matches anywhere in
/// `text`. The answer depends on the pattern, the case flag and the text
/// alone, and is named by [`regex_is_match`].
#[verifier::external_body]
fn run_is_match(m: &Matcher, text: &str) -> (b: bool)
    ensures
        b == regex_is_match(m.source(), m.fold_case(), text@),
{
    m.regex.is_match(text)
}

/// Calls `Regex::find_iter` and collects the byte offsets of each match.
/// The list is named by [`regex_find_all`]. The crate documents that the
/// matches are successive and non-overlapping, that `start <= end`, and
/// that both offsets fall on character boundaries of the text.
#[verifier::external_body]
fn run_find_all(m: &Matcher, text: &str) -> (spans: Vec<(usize, usize)>)
    ensures
        spans@ == regex_find_all(m.source(), m.fold_case(), text@),
        successive_spans(spans@, text@),
{
    m.regex.find_iter(text).map(|found| (found.start(), found.end())).collect()
}

impl Matcher {
    /// The pattern text this matcher was compiled from.
    pub closed spec fn source(&self) -> Seq<char> {
        self.source@
    }

    /// Whether this matcher ignores case.
    pub closed spec fn fold_case(&self) -> bool {
        self.fold_case
    }

    /// What this matcher says of `text`.
    pub open spec fn accepts(&self, text: Seq<char>) -> bool {
        regex_is_match(self.source(), self.fold_case(), text)
    }

    /// The matches this matcher finds in `text`.
    pub open spec fn spans(&self, text: Seq<char>) -> Seq<(usize, usize)> {
        regex_find_all(self.source(), self.fold_case(), text)
    }

    /// Compiles `pattern`. Fails exactly when the pattern does not
    /// compile; the error then names it and carries the compiler's own
    /// description.
    pub fn new(pattern: &str, fold_case: bool) -> (r: Result<Matcher, PatternError>)
        ensures
            r is Ok <==> regex_compiles(pattern@, fold_case),
            r matches Ok(m) ==> m.source() == pattern@ && m.fold_case() == fold_case,
            r matches Err(e) ==> e matches PatternError::BadExpression { pattern: p, .. } && p@
                == pattern@,
    {
        match build_regex(pattern, fold_case) {
            Ok(m) => Ok(m),
            Err(e) => Err(
                PatternError::BadExpression {
                    pattern: String::from_str(pattern),
                    detail: describe_error(&e),
                },
            ),
        }
    }

    /// The pattern text this matcher was compiled from.
    pub fn as_str(&self) -> (s: &str)
        ensures
            s@ == self.source(),
    {
        self.source.as_str()
    }

    /// Whether this matcher matches case-insensitively.
    pub fn ignores_case(&self) -> (b: bool)
        ensures
            b == self.fold_case(),
    {
        self.fold_case
    }

    /// Whether the pattern matches anywhere in `text`.
    pub fn is_match(&self, text: &str) -> (b: bool)
        ensures
            b == self.accepts(text@),
    {
        run_is_match(self, text)
    }

    /// All matches of the pattern in `text`, left to right.
    pub fn find_all(&self, text: &str) -> (spans: Vec<(usize, usize)>)
        ensures
            spans@ == self.spans(text@),
            successive_spans(spans@, text@),
    {
        run_find_all(self, text)
    }
}

} // verus!
