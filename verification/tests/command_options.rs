use sfind::command_options::{Cli, OptionsError, Positional, TimeError};
use sfind::CommandOptions;
use std::path::PathBuf;

const DAY: u64 = 24 * 60 * 60;

fn cli() -> Cli {
    Cli {
        save_default_config: false,
        show_config: false,
        case_sensitive_filenames: false,
        case_sensitive_contents: false,
        match_path: false,
        times: None,
        after: None,
        before: None,
        depth: None,
        errors: false,
        regex: vec![],
        fixed: vec![],
        positional: vec![],
        debug: false,
    }
}

fn given(path: &str, is_dir: bool) -> Positional {
    Positional {
        path: PathBuf::from(path),
        is_dir,
        text: Some(path.to_string()),
    }
}

#[test]
fn times_with_units() {
    let now = 1_000_000;
    assert_eq!(CommandOptions::parse_time("45s", now), Ok(now - 45));
    assert_eq!(CommandOptions::parse_time("90m", now), Ok(now - 90 * 60));
    assert_eq!(CommandOptions::parse_time("12h", now), Ok(now - 12 * 3600));
    assert_eq!(CommandOptions::parse_time("3d", now), Ok(now - 3 * DAY));
    assert_eq!(CommandOptions::parse_time("0s", now), Ok(now));
}

#[test]
fn time_without_a_unit_counts_days() {
    assert_eq!(CommandOptions::parse_time("2", 10 * DAY), Ok(8 * DAY));
    assert_eq!(CommandOptions::parse_time("007", 10 * DAY), Ok(3 * DAY));
}

#[test]
fn unit_letter_need_not_come_last() {
    assert_eq!(CommandOptions::parse_time("1h2", 100_000), Ok(100_000 - 12 * 3600));
    assert_eq!(CommandOptions::parse_time("d", 5), Ok(5));
    assert_eq!(CommandOptions::parse_time("m5", 1000), Ok(700));
}

#[test]
fn times_that_are_refused() {
    assert_eq!(CommandOptions::parse_time("", 100), Err(TimeError::Blank));
    assert_eq!(CommandOptions::parse_time("5x", 100), Err(TimeError::Syntax));
    assert_eq!(CommandOptions::parse_time("5 d", DAY * 9), Err(TimeError::Syntax));
    assert_eq!(CommandOptions::parse_time("5hd", DAY * 9), Err(TimeError::Syntax));
    assert_eq!(CommandOptions::parse_time("ss", DAY * 9), Err(TimeError::Syntax));
    assert_eq!(CommandOptions::parse_time("-1", DAY * 9), Err(TimeError::Syntax));
    assert_eq!(CommandOptions::parse_time("٣d", DAY * 9), Err(TimeError::Syntax));
}

#[test]
fn times_before_the_epoch_are_refused() {
    assert_eq!(CommandOptions::parse_time("101s", 100), Err(TimeError::OutOfRange));
    assert_eq!(CommandOptions::parse_time("100s", 100), Ok(0));
    assert_eq!(CommandOptions::parse_time("1", DAY - 1), Err(TimeError::OutOfRange));
    assert_eq!(
        CommandOptions::parse_time("99999999999999999999999999s", u64::MAX),
        Err(TimeError::OutOfRange)
    );
    assert_eq!(
        CommandOptions::parse_time("18446744073709551615s", u64::MAX),
        Ok(0)
    );
    assert_eq!(
        CommandOptions::parse_time("18446744073709551616s", u64::MAX),
        Err(TimeError::OutOfRange)
    );
    assert_eq!(
        CommandOptions::parse_time("18446744073709551615d", u64::MAX),
        Err(TimeError::OutOfRange)
    );
    // bad syntax is reported even behind a number that is too large
    assert_eq!(
        CommandOptions::parse_time("99999999999999999999999999x", u64::MAX),
        Err(TimeError::Syntax)
    );
}

#[test]
fn one_or_two_times() {
    let now = 100 * DAY;
    assert_eq!(CommandOptions::parse_times(&None, now), Ok((None, None)));
    assert_eq!(
        CommandOptions::parse_times(&Some(String::from("3d")), now),
        Ok((Some(97 * DAY), None))
    );
    assert_eq!(
        CommandOptions::parse_times(&Some(String::from("3d,1h")), now),
        Ok((Some(97 * DAY), Some(now - 3600)))
    );
}

#[test]
fn time_options_that_are_refused() {
    let now = 100 * DAY;
    let parse = |text: &str| CommandOptions::parse_times(&Some(String::from(text)), now);
    assert_eq!(parse("1,2,3"), Err(TimeError::TooManyTimes));
    assert_eq!(parse("x,y,z"), Err(TimeError::TooManyTimes));
    assert_eq!(parse(",,"), Err(TimeError::TooManyTimes));
    assert_eq!(parse(""), Err(TimeError::Blank));
    assert_eq!(parse(","), Err(TimeError::Blank));
    assert_eq!(parse("1,"), Err(TimeError::Blank));
    assert_eq!(parse(",1"), Err(TimeError::Blank));
    assert_eq!(parse("x,1"), Err(TimeError::Syntax));
    assert_eq!(parse("1,x"), Err(TimeError::Syntax));
    assert_eq!(parse("101,x"), Err(TimeError::OutOfRange));
    assert_eq!(parse("1,101"), Err(TimeError::OutOfRange));
}

#[test]
fn error_messages() {
    assert_eq!(TimeError::Blank.message(), "blank time string");
    assert_eq!(
        TimeError::Syntax.message(),
        "expecting 0-9 followed by s, m, h or d"
    );
    assert_eq!(TimeError::TooManyTimes.message(), "Too many times");
    assert_eq!(TimeError::OutOfRange.message(), "time is out of range");
    assert_eq!(
        OptionsError::MissingProgname.message(),
        "missing progname in command arguments"
    );
    assert_eq!(
        OptionsError::Time(TimeError::Blank).message(),
        "blank time string"
    );
}

#[test]
fn request_without_arguments_is_refused() {
    assert_eq!(
        CommandOptions::new(&[], cli(), 0).unwrap_err(),
        OptionsError::MissingProgname
    );
}

#[test]
fn request_with_a_bad_time_is_refused() {
    let mut line = cli();
    line.times = Some(String::from("1w"));
    assert_eq!(
        CommandOptions::new(&[String::from("sfind")], line, 0).unwrap_err(),
        OptionsError::Time(TimeError::Syntax)
    );
}

#[test]
fn plain_request_starts_in_the_current_folder() {
    let opt = CommandOptions::new(&[String::from("sfind"), String::from("-x")], cli(), 5).unwrap();
    assert_eq!(opt.progname, "sfind");
    assert_eq!(opt.folders, vec![PathBuf::from(".")]);
    assert!(opt.files.is_empty());
    assert!(opt.find_iname);
    assert!(opt.find_match_basename);
    assert!(opt.grep_ignore_case);
    assert!(!opt.debug);
    assert!(!opt.report_supressed_errors);
    assert_eq!(opt.time_from, None);
    assert_eq!(opt.time_till, None);
    assert_eq!(opt.size_min, None);
    assert_eq!(opt.size_max, None);
    assert_eq!(opt.find_depth, None);
    assert!(opt.find_only());
}

#[test]
fn request_takes_over_the_command_line() {
    let mut line = cli();
    line.save_default_config = true;
    line.show_config = true;
    line.case_sensitive_filenames = true;
    line.case_sensitive_contents = true;
    line.match_path = true;
    line.times = Some(String::from("2d,1d"));
    line.after = Some(1);
    line.before = Some(2);
    line.depth = Some(3);
    line.errors = true;
    line.debug = true;
    line.regex = vec![String::from("a+")];
    line.fixed = vec![String::from("b"), String::from("c")];
    line.positional = vec![
        given("*.rs", false),
        given("src", true),
        Positional {
            path: PathBuf::from("odd"),
            is_dir: false,
            text: None,
        },
        given("tests", true),
        given("Cargo.toml", false),
    ];
    let opt = CommandOptions::new(&[String::from("prog")], line, 10 * DAY).unwrap();
    assert_eq!(opt.progname, "prog");
    assert!(opt.save_default_config);
    assert!(opt.show_config);
    assert!(!opt.find_iname);
    assert!(!opt.grep_ignore_case);
    assert!(!opt.find_match_basename);
    assert_eq!(opt.time_from, Some(8 * DAY));
    assert_eq!(opt.time_till, Some(9 * DAY));
    assert_eq!(opt.grep_lines_after, Some(1));
    assert_eq!(opt.grep_lines_before, Some(2));
    assert_eq!(opt.find_depth, Some(3));
    assert!(opt.report_supressed_errors);
    assert!(opt.debug);
    assert_eq!(opt.regex_patterns, vec!["a+"]);
    assert_eq!(opt.fixed_strings, vec!["b", "c"]);
    assert_eq!(opt.folders, vec![PathBuf::from("src"), PathBuf::from("tests")]);
    assert_eq!(opt.files, vec!["*.rs", "Cargo.toml"]);
    assert!(!opt.find_only());
}
