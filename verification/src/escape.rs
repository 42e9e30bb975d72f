//! Translation of glob patterns and fixed strings into regular-expression
//! fragments.
//!
//! Both translations walk the input once and replace every character by a
//! short fragment. They differ only in how `*` and `?` are treated: as
//! wildcards (for file-name globs) or as ordinary characters that must be
//! escaped (for fixed search strings).

use vstd::prelude::*;

verus! {

/// The characters that are escaped with a backslash in both translations.
pub open spec fn is_escaped_char(c: char) -> bool {
    c == '.' || c == '+' || c == '(' || c == ')' || c == '|' || c == '\\' || c == '[' || c == ']'
        || c == '{' || c == '}' || c == '^' || c == '$' || c == '#'
}

/// The fragment that stands for one input character.
pub open spec fn translate_char(c: char, wildcards: bool) -> Seq<char> {
    if c == '*' {
        if wildcards {
            seq!['.', '*']
        } else {
            seq!['\\', '*']
        }
    } else if c == '?' {
        if wildcards {
            seq!['.']
        } else {
            seq!['\\', '?']
        }
    } else if is_escaped_char(c) {
        seq!['\\', c]
    } else {
        seq![c]
    }
}

/// The translation of a whole pattern: the fragments of its characters, in
/// order.
pub open spec fn translated(s: Seq<char>, wildcards: bool) -> Seq<char>
    decreases s.len(),
{
    if s.len() == 0 {
        Seq::empty()
    } else {
        translated(s.drop_last(), wildcards) + translate_char(s.last(), wildcards)
    }
}

/// Translating a concatenation gives the concatenation of the translations.
pub proof fn lemma_translated_concat(a: Seq<char>, b: Seq<char>, wildcards: bool)
    ensures
        translated(a + b, wildcards) == translated(a, wildcards) + translated(b, wildcards),
    decreases b.len(),
{
    if b.len() > 0 {
        assert((a + b).drop_last() == a + b.drop_last());
        lemma_translated_concat(a, b.drop_last(), wildcards);
    }
}

/// Every character of the input contributes one or two characters.
pub proof fn lemma_translated_len(s: Seq<char>, wildcards: bool)
    ensures
        s.len() <= translated(s, wildcards).len() <= 2 * s.len(),
    decreases s.len(),
{
    if s.len() > 0 {
        lemma_translated_len(s.drop_last(), wildcards);
    }
}

/// The two translations differ only in `*` and `?`: on a text without
/// them they agree.
pub proof fn lemma_modes_agree_without_wildcards(s: Seq<char>)
    requires
        forall|i: int| 0 <= i < s.len() ==> s[i] != '*' && s[i] != '?',
    ensures
        translated(s, true) == translated(s, false),
    decreases s.len(),
{
    if s.len() > 0 {
        assert forall|i: int| 0 <= i < s.drop_last().len() implies s.drop_last()[i] != '*'
            && s.drop_last()[i] != '?' by {
        }
        lemma_modes_agree_without_wildcards(s.drop_last());
    }
}

/// A text without any special character is its own translation.
pub proof fn lemma_plain_text_is_unchanged(s: Seq<char>, wildcards: bool)
    requires
        forall|i: int|
            0 <= i < s.len() ==> s[i] != '*' && s[i] != '?' && !is_escaped_char(#[trigger] s[i]),
    ensures
        translated(s, wildcards) == s,
    decreases s.len(),
{
    if s.len() > 0 {
        assert forall|i: int| 0 <= i < s.drop_last().len() implies s.drop_last()[i] != '*'
            && s.drop_last()[i] != '?' && !is_escaped_char(#[trigger] s.drop_last()[i]) by {
        }
        lemma_plain_text_is_unchanged(s.drop_last(), wildcards);
    }
}

/// The text that a literal translation stands for: each backslash is
/// dropped and the character behind it is kept.
pub open spec fn unescaped(t: Seq<char>) -> Seq<char>
    decreases t.len(),
{
    if t.len() == 0 {
        Seq::empty()
    } else if t[0] == '\\' && t.len() >= 2 {
        seq![t[1]] + unescaped(t.subrange(2, t.len() as int))
    } else {
        seq![t[0]] + unescaped(t.drop_first())
    }
}

/// The translation of a text starts with the fragment of its first
/// character.
pub proof fn lemma_translated_front(s: Seq<char>, wildcards: bool)
    requires
        s.len() > 0,
    ensures
        translated(s, wildcards) == translate_char(s[0], wildcards) + translated(
            s.drop_first(),
            wildcards,
        ),
{
    let first = seq![s[0]];
    assert(first + s.drop_first() == s);
    lemma_translated_concat(first, s.drop_first(), wildcards);
    assert(translated(first, wildcards) == translated(first.drop_last(), wildcards)
        + translate_char(first.last(), wildcards));
}

/// Nothing is lost in a literal translation: taking the backslashes out
/// again gives back the text.
pub proof fn lemma_literal_round_trip(s: Seq<char>)
    ensures
        unescaped(translated(s, false)) == s,
    decreases s.len(),
{
    if s.len() > 0 {
        let t = translated(s, false);
        let fragment = translate_char(s[0], false);
        let rest = translated(s.drop_first(), false);
        lemma_translated_front(s, false);
        lemma_literal_round_trip(s.drop_first());
        if fragment.len() == 2 {
            assert(t.subrange(2, t.len() as int) == rest);
        } else {
            assert(t.drop_first() == rest);
        }
    }
}

/// Two texts with the same literal translation are the same text.
pub proof fn lemma_literal_is_one_to_one(a: Seq<char>, b: Seq<char>)
    requires
        translated(a, false) == translated(b, false),
    ensures
        a == b,
{
    lemma_literal_round_trip(a);
    lemma_literal_round_trip(b);
}

/// Translates `pattern` character by character. With `wildcards` set, `*`
/// becomes `.*` and `?` becomes `.`; otherwise both are escaped like the
/// other special characters.
pub fn translate(pattern: &str, wildcards: bool) -> (out: String)
    ensures
        out@ == translated(pattern@, wildcards),
{
    let mut out = String::new();
    for ch in it: pattern.chars()
        invariant
            it.seq() == pattern@,
            out@ == translated(pattern@.take(it.index() as int), wildcards),
    {
        proof {
            let i = it.index();
            assert(pattern@.take(i + 1).drop_last() == pattern@.take(i));
        }
        if ch == '*' {
            if wildcards {
                out.push('.');
                out.push('*');
            } else {
                out.push('\\');
                out.push('*');
            }
        } else if ch == '?' {
            if wildcards {
                out.push('.');
            } else {
                out.push('\\');
                out.push('?');
            }
        } else if ch == '.' || ch == '+' || ch == '(' || ch == ')' || ch == '|' || ch == '\\'
            || ch == '[' || ch == ']' || ch == '{' || ch == '}' || ch == '^' || ch == '$'
            || ch == '#' {
            out.push('\\');
            out.push(ch);
        } else {
            out.push(ch);
        }
    }
    proof {
        assert(pattern@.take(pattern@.len() as int) == pattern@);
    }
    out
}

/// Translates a file-name glob: `*` matches any run of characters, `?` any
/// single character, everything else stands for itself.
pub fn translate_wildcard(pattern: &str) -> (out: String)
    ensures
        out@ == translated(pattern@, true),
{
    translate(pattern, true)
}

/// Translates a fixed string into a pattern that matches exactly that
/// string.
pub fn translate_literal(text: &str) -> (out: String)
    ensures
        out@ == translated(text@, false),
{
    translate(text, false)
}

} // verus!
