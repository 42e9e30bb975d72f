use sfind::colour::{colour_end_code, colour_file_code, colour_line_code, match_colour_code};
use sfind::grep_in_file::{LineDecodeError, SearchOutcome};
use sfind::lines::{find_line, is_binary};
use sfind::matcher::PatternError;
use sfind::output_line::{decimal_string, format_match_line};
use sfind::patterns::{fixed_to_regex, name_search_pattern, pattern_to_regex, GrepPatterns};
use sfind::text::{str_byte_len, substr};
use sfind::{colour_match_line, CommandOptions, GrepInFile, GrepMatch};

fn options(fixed: &[&str], regex: &[&str]) -> CommandOptions {
    CommandOptions {
        progname: String::from("sfind"),
        debug: false,
        save_default_config: false,
        show_config: false,
        report_supressed_errors: false,
        find_iname: true,
        find_match_basename: true,
        time_from: None,
        time_till: None,
        size_min: None,
        size_max: None,
        grep_ignore_case: false,
        grep_lines_after: None,
        grep_lines_before: None,
        find_depth: None,
        regex_patterns: regex.iter().map(|p| p.to_string()).collect(),
        fixed_strings: fixed.iter().map(|p| p.to_string()).collect(),
        folders: vec![],
        files: vec![],
    }
}

fn span(pattern_index: usize, start: usize, end: usize) -> GrepMatch {
    GrepMatch {
        pattern_index,
        start,
        end,
    }
}

/// An output line for the file `f.txt` and a line number below 10000: the
/// prefix is reckoned as 13 columns, so three blanks follow the marker.
fn shown(number: usize, marker: &str, text: &str) -> String {
    format!(
        "\x1b[35mf.txt\x1b[m:\x1b[32m{}\x1b[m{}   {}",
        number, marker, text
    )
}

#[test]
fn quote_regex() {
    assert_eq!(GrepPatterns::quote_regex("fixed"), "fixed");
    assert_eq!(GrepPatterns::quote_regex("file.type"), "file\\.type");
    assert_eq!(GrepPatterns::quote_regex("*.type"), "\\*\\.type");
}

#[test]
fn colour_codes() {
    assert_eq!(colour_file_code(), "\x1b[35m");
    assert_eq!(colour_line_code(), "\x1b[32m");
    assert_eq!(colour_end_code(), "\x1b[m");
    assert_eq!(match_colour_code(0), "\x1b[1;31m");
    assert_eq!(match_colour_code(1), "\x1b[33m");
    assert_eq!(match_colour_code(2), "\x1b[1;34m");
    assert_eq!(match_colour_code(3), "\x1b[32m");
    assert_eq!(match_colour_code(4), "\x1b[35m");
    assert_eq!(match_colour_code(5), "\x1b[1;31m");
    assert_eq!(match_colour_code(13), "\x1b[32m");
}

#[test]
fn overlapping_matches_are_coloured_once() {
    let line = "hello";
    let out = colour_match_line(line, &[span(0, 0, 3), span(1, 2, 5)]);
    assert_eq!(out, "\x1b[1;31mhel\x1b[m\x1b[33mlo\x1b[m");
}

#[test]
fn separate_matches_keep_the_text_between_them() {
    let out = colour_match_line("one two three", &[span(0, 4, 7)]);
    assert_eq!(out, "one \x1b[1;31mtwo\x1b[m three");
    let out = colour_match_line("one two three", &[span(2, 0, 3), span(6, 8, 13)]);
    assert_eq!(out, "\x1b[1;34mone\x1b[m two \x1b[33mthree\x1b[m");
}

#[test]
fn line_without_matches_is_unchanged() {
    assert_eq!(colour_match_line("plain", &[]), "plain");
    assert_eq!(colour_match_line("", &[]), "");
}

#[test]
fn match_inside_an_earlier_match_adds_no_text() {
    let out = colour_match_line("abcdef", &[span(0, 0, 5), span(1, 1, 3)]);
    assert_eq!(out, "\x1b[1;31mabcde\x1b[m\x1b[33m\x1b[mf");
}

#[test]
fn empty_match_is_an_empty_run() {
    let out = colour_match_line("ab", &[span(0, 1, 1)]);
    assert_eq!(out, "a\x1b[1;31m\x1b[mb");
}

#[test]
fn matches_in_text_with_longer_characters() {
    let line = "aéé b";
    let out = colour_match_line(line, &[span(0, 1, 5)]);
    assert_eq!(out, "a\x1b[1;31méé\x1b[m b");
}

#[test]
fn stripping_the_codes_gives_back_the_line() {
    let line = "the quick brown fox";
    let spans = [span(0, 0, 9), span(1, 4, 6), span(2, 4, 15), span(3, 19, 19)];
    let mut out = colour_match_line(line, &spans);
    for index in 0..5 {
        out = out.replace(match_colour_code(index), "");
    }
    out = out.replace(colour_end_code(), "");
    assert_eq!(out, line);
}

#[test]
fn pieces_of_a_text() {
    assert_eq!(str_byte_len("aéé b"), 7);
    assert_eq!(substr("aéé b", 1, 5), "éé");
    assert_eq!(substr("aéé b", 0, 0), "");
    assert_eq!(substr("aéé b", 0, 7), "aéé b");
    assert_eq!(substr("aéé b", 5, 7), " b");
}

#[test]
fn decimal_numbers() {
    assert_eq!(decimal_string(0), "0");
    assert_eq!(decimal_string(7), "7");
    assert_eq!(decimal_string(10), "10");
    assert_eq!(decimal_string(12345), "12345");
    assert_eq!(decimal_string(usize::MAX), usize::MAX.to_string());
}

#[test]
fn layout_of_an_output_line() {
    // 5 + 1 + 4 + 1 + 2 = 13 columns: 3 more make 16
    assert_eq!(
        format_match_line("f.txt", false, 3, ":", "text"),
        "\x1b[35mf.txt\x1b[m:\x1b[32m3\x1b[m:   text"
    );
    // 4 + 1 + 4 + 1 + 2 = 12 columns: a full step of 4 is added
    assert_eq!(
        format_match_line("f.rs", false, 3, "+", "text"),
        "\x1b[35mf.rs\x1b[m:\x1b[32m3\x1b[m+    text"
    );
    // 2 + 1 + 4 + 1 + 2 = 10 columns
    assert_eq!(
        format_match_line("ab", false, 9999, "-", ""),
        "\x1b[35mab\x1b[m:\x1b[32m9999\x1b[m-  "
    );
    // five digits take five columns: 2 + 1 + 5 + 1 + 2 = 11
    assert_eq!(
        format_match_line("ab", false, 10000, "-", "x"),
        "\x1b[35mab\x1b[m:\x1b[32m10000\x1b[m- x"
    );
    // the length of the path counts in bytes: 3 + 1 + 4 + 1 + 2 = 11
    assert_eq!(
        format_match_line("éa", false, 1, ":", "x"),
        "\x1b[35méa\x1b[m:\x1b[32m1\x1b[m: x"
    );
}

#[test]
fn debug_makes_the_padding_visible() {
    assert_eq!(
        format_match_line("f.txt", true, 3, ":", "text"),
        "\x1b[35mf.txt\x1b[m:\x1b[32m3\x1b[m:\u{b7}\u{b7}\u{b7}text"
    );
}

#[test]
fn fixed_strings_come_before_regular_expressions() {
    let opt = options(&["a.c", "*"], &["a.c"]);
    let set = GrepPatterns::new(&opt).unwrap();
    assert_eq!(set.patterns.len(), 3);
    assert_eq!(set.patterns[0].as_str(), "a\\.c");
    assert_eq!(set.patterns[1].as_str(), "\\*");
    assert_eq!(set.patterns[2].as_str(), "a.c");
    assert!(!set.patterns[0].ignores_case());
}

#[test]
fn bad_search_pattern_is_named() {
    let opt = options(&["fine("], &["ok", "bad(", "worse["]);
    let error = GrepPatterns::new(&opt).unwrap_err();
    assert!(matches!(&error, PatternError::BadSearch { pattern } if pattern == "bad("));
    assert_eq!(error.message(), "failed to compile regex for bad(");
}

#[test]
fn matches_of_all_patterns_in_order_of_start() {
    let opt = options(&["lo", "hello"], &["l+", "o"]);
    let set = GrepPatterns::new(&opt).unwrap();
    assert_eq!(
        set.find_match("hello lo"),
        vec![
            span(1, 0, 5),
            span(2, 2, 4),
            span(0, 3, 5),
            span(3, 4, 5),
            span(0, 6, 8),
            span(2, 6, 7),
            span(3, 7, 8),
        ]
    );
    assert_eq!(set.find_match("neither"), vec![]);
}

#[test]
fn case_is_ignored_on_request() {
    let mut opt = options(&["AB"], &["c+"]);
    let set = GrepPatterns::new(&opt).unwrap();
    assert_eq!(set.find_match("ab AB cC"), vec![span(0, 3, 5), span(1, 6, 7)]);
    opt.grep_ignore_case = true;
    let set = GrepPatterns::new(&opt).unwrap();
    assert_eq!(
        set.find_match("ab AB cC"),
        vec![span(0, 0, 2), span(0, 3, 5), span(1, 6, 8)]
    );
}

#[test]
fn fixed_string_matches_only_itself() {
    let opt = options(&["a.c*"], &[]);
    let set = GrepPatterns::new(&opt).unwrap();
    assert_eq!(set.find_match("abc* a.c a.c*"), vec![span(0, 9, 13)]);
}

#[test]
fn lines_before_and_after_a_match() {
    let mut opt = options(&["x"], &[]);
    opt.grep_lines_before = Some(2);
    opt.grep_lines_after = Some(1);
    let set = GrepPatterns::new(&opt).unwrap();
    let mut session = GrepInFile::new(&opt, "f.txt", &set);
    let mut out: Vec<String> = vec![];
    for line in ["a", "b", "cx", "d", "ex", "f"] {
        out.extend(session.feed_line(line));
    }
    // a line shown after a match is held back as well, so `d` comes again
    // before the match that follows it
    assert_eq!(
        out,
        vec![
            shown(1, "-", "a"),
            shown(2, "-", "b"),
            shown(3, ":", "c\x1b[1;31mx\x1b[m"),
            shown(4, "+", "d"),
            shown(4, "-", "d"),
            shown(5, ":", "e\x1b[1;31mx\x1b[m"),
            shown(6, "+", "f"),
        ]
    );
}

#[test]
fn lines_before_and_after_matches_that_lie_apart() {
    let mut opt = options(&["x"], &[]);
    opt.grep_lines_before = Some(2);
    opt.grep_lines_after = Some(1);
    let set = GrepPatterns::new(&opt).unwrap();
    let mut session = GrepInFile::new(&opt, "f.txt", &set);
    let mut out: Vec<String> = vec![];
    for line in ["a", "b", "cx", "d", "e", "f", "g", "hx", "i", "j"] {
        out.extend(session.feed_line(line));
    }
    assert_eq!(
        out,
        vec![
            shown(1, "-", "a"),
            shown(2, "-", "b"),
            shown(3, ":", "c\x1b[1;31mx\x1b[m"),
            shown(4, "+", "d"),
            shown(6, "-", "f"),
            shown(7, "-", "g"),
            shown(8, ":", "h\x1b[1;31mx\x1b[m"),
            shown(9, "+", "i"),
        ]
    );
}

#[test]
fn no_context_is_shown_unless_asked_for() {
    let opt = options(&[], &["x+"]);
    let set = GrepPatterns::new(&opt).unwrap();
    let mut session = GrepInFile::new(&opt, "f.txt", &set);
    assert_eq!(session.feed_line("a"), Vec::<String>::new());
    assert_eq!(
        session.feed_line("axxb"),
        vec![shown(2, ":", "a\x1b[1;31mxx\x1b[mb")]
    );
    assert_eq!(session.feed_line("c"), Vec::<String>::new());
}

#[test]
fn matches_are_handed_in_from_outside() {
    let mut opt = options(&[], &[]);
    opt.grep_lines_before = Some(1);
    opt.grep_lines_after = Some(2);
    let set = GrepPatterns::new(&opt).unwrap();
    let mut session = GrepInFile::new(&opt, "f.txt", &set);
    assert_eq!(session.feed_matched_line("one", &[]), Vec::<String>::new());
    assert_eq!(session.feed_matched_line("two", &[]), Vec::<String>::new());
    assert_eq!(
        session.feed_matched_line("three", &[span(1, 0, 2), span(0, 1, 3)]),
        vec![
            shown(2, "-", "two"),
            shown(3, ":", "\x1b[33mth\x1b[m\x1b[1;31mr\x1b[mee"),
        ]
    );
    assert_eq!(
        session.feed_matched_line("four", &[]),
        vec![shown(4, "+", "four")]
    );
    assert_eq!(
        session.feed_matched_line("five", &[]),
        vec![shown(5, "+", "five")]
    );
    assert_eq!(session.feed_matched_line("six", &[]), Vec::<String>::new());
    assert_eq!(
        session.render_match_line(7, ":", "x"),
        shown(7, ":", "x")
    );
}

#[test]
fn binary_content() {
    assert!(is_binary(&[0]));
    assert!(is_binary(&[b'a', 1, b'b']));
    assert!(!is_binary(&[]));
    assert!(!is_binary(b"text\n\x02\x7f"));
    let mut long = vec![b'a'; 1023];
    long.push(0);
    assert!(is_binary(&long));
    let mut longer = vec![b'a'; 1024];
    longer.push(0);
    assert!(!is_binary(&longer));
}

#[test]
fn file_that_starts_with_a_zero_byte_gives_nothing() {
    let opt = options(&["x"], &[]);
    let set = GrepPatterns::new(&opt).unwrap();
    let mut session = GrepInFile::new(&opt, "f.txt", &set);
    let SearchOutcome { lines, error } = session.search(b"\0x\nx\n");
    assert!(lines.is_empty());
    assert!(error.is_none());
    // the session has not moved
    assert_eq!(session.feed_line("x"), vec![shown(1, ":", "\x1b[1;31mx\x1b[m")]);
}

#[test]
fn lines_of_a_file() {
    //                0123 4 5678 9 0 1 2345
    let content = b"one\r\ntwo\n\n\r\nlast";
    assert_eq!(find_line(content, 0), (3, 4));
    assert_eq!(find_line(content, 5), (8, 8));
    assert_eq!(find_line(content, 9), (9, 9));
    assert_eq!(find_line(content, 10), (10, 11));
    assert_eq!(find_line(content, 12), (16, 16));
    assert_eq!(find_line(content, 16), (16, 16));
    // a carriage return without a line feed behind it stays
    assert_eq!(find_line(b"a\r", 0), (2, 2));
    assert_eq!(find_line(b"\n", 0), (0, 0));
}

#[test]
fn search_of_a_whole_file() {
    let mut opt = options(&[], &["^two$", "^$", "t"]);
    opt.grep_lines_after = Some(1);
    let set = GrepPatterns::new(&opt).unwrap();
    let mut session = GrepInFile::new(&opt, "f.txt", &set);
    let outcome = session.search(b"one\r\ntwo\n\nthree\r\nlast\r");
    assert!(outcome.error.is_none());
    assert_eq!(
        outcome.lines,
        vec![
            shown(2, ":", "\x1b[1;31mtwo\x1b[m\x1b[1;34m\x1b[m"),
            shown(3, ":", "\x1b[33m\x1b[m"),
            shown(4, ":", "\x1b[1;34mt\x1b[mhree"),
            shown(5, ":", "las\x1b[1;34mt\x1b[m\r"),
        ]
    );
}

#[test]
fn search_of_an_empty_file() {
    let opt = options(&[], &["^$"]);
    let set = GrepPatterns::new(&opt).unwrap();
    let mut session = GrepInFile::new(&opt, "f.txt", &set);
    let outcome = session.search(b"");
    assert!(outcome.error.is_none());
    assert!(outcome.lines.is_empty());
    let outcome = session.search(b"\n");
    assert_eq!(outcome.lines, vec![shown(1, ":", "\x1b[1;31m\x1b[m")]);
}

#[test]
fn line_that_is_not_utf8_ends_the_search() {
    let opt = options(&["x"], &[]);
    let set = GrepPatterns::new(&opt).unwrap();
    let mut session = GrepInFile::new(&opt, "f.txt", &set);
    let outcome = session.search(b"ax\nb\xffx\ncx\n");
    assert_eq!(outcome.lines, vec![shown(1, ":", "a\x1b[1;31mx\x1b[m")]);
    let error = outcome.error.unwrap();
    assert_eq!(error.line_number, 2);
    assert_eq!(error.path, "f.txt");
    assert_eq!(
        error.message(),
        "Error reading f.txt - stream did not contain valid UTF-8"
    );
}

#[test]
fn bytes_of_one_line() {
    let opt = options(&["é"], &[]);
    let set = GrepPatterns::new(&opt).unwrap();
    let mut session = GrepInFile::new(&opt, "f.txt", &set);
    assert_eq!(
        session.feed_bytes("né".as_bytes()).unwrap(),
        vec![shown(1, ":", "n\x1b[1;31mé\x1b[m")]
    );
    let refused: LineDecodeError = session.feed_bytes(&[0xc3]).unwrap_err();
    assert_eq!(refused.line_number, 2);
    // the refused line was not counted
    assert_eq!(
        session.feed_bytes("é".as_bytes()).unwrap(),
        vec![shown(2, ":", "\x1b[1;31mé\x1b[m")]
    );
}

#[test]
fn failure_to_compile_names_the_pattern_as_given() {
    let compiled = sfind::matcher::Matcher::new("a+", false);
    let matcher = name_search_pattern("a+", compiled).unwrap();
    assert_eq!(matcher.as_str(), "a+");
    let failed = sfind::matcher::Matcher::new("(", false);
    let error = name_search_pattern("given", failed).unwrap_err();
    assert!(matches!(&error, PatternError::BadSearch { pattern } if pattern == "given"));
}

#[test]
fn search_patterns_one_by_one() {
    let matcher = fixed_to_regex("a.c(", false).unwrap();
    assert_eq!(matcher.as_str(), "a\\.c\\(");
    assert!(matcher.is_match("xa.c(x"));
    assert!(!matcher.is_match("xabc(x"));
    assert!(!matcher.is_match("xA.C(x"));
    assert!(fixed_to_regex("a.c(", true).unwrap().is_match("xA.C(x"));
    let matcher = pattern_to_regex("a.c", false).unwrap();
    assert_eq!(matcher.as_str(), "a.c");
    assert!(matcher.is_match("xabcx"));
    let error = pattern_to_regex("a.c(", false).unwrap_err();
    assert_eq!(error.message(), "failed to compile regex for a.c(");
}

#[test]
fn fixed_strings_always_compile() {
    let opt = options(&["a(", "[", "\\", "*+?", ""], &[]);
    let set = GrepPatterns::new(&opt).unwrap();
    assert_eq!(set.patterns.len(), 5);
    assert_eq!(set.find_match("x[a(\\"), {
        let mut all = vec![span(1, 1, 2), span(0, 2, 4), span(2, 4, 5)];
        // the empty string matches between any two characters
        for at in 0..=5 {
            all.push(span(4, at, at));
        }
        all.sort_by_key(|m| m.start);
        all
    });
}
