//! The search request, and how it is put together from the command line.

use std::path::PathBuf;
use vstd::prelude::*;
use vstd::string::StringExecFns;

verus! {

/// `std::path::PathBuf`: a path is handed on as it is, and nothing inside
/// it is looked at.
#[verifier::external_type_specification]
#[verifier::external_body]
pub struct ExPathBuf(PathBuf);

/// Cloning a path gives the same path.
pub assume_specification[ <PathBuf as Clone>::clone ](path: &PathBuf) -> (copy: PathBuf)
    ensures
        copy == *path,
;

/// The path that `text` names.
pub uninterp spec fn path_from_text(text: Seq<char>) -> PathBuf;

/// Calls `PathBuf::from` on a string slice: the path that the text names.
#[verifier::external_body]
fn path_from(text: &str) -> (path: PathBuf)
    ensures
        path == path_from_text(text@),
{
    PathBuf::from(text)
}

/// Everything one run was asked to do.
#[derive(Debug)]
pub struct CommandOptions {
    pub progname: String,
    pub debug: bool,
    pub save_default_config: bool,
    pub show_config: bool,
    pub report_supressed_errors: bool,
    pub find_iname: bool,
    pub find_match_basename: bool,
    pub time_from: Option<u64>,
    pub time_till: Option<u64>,
    pub size_min: Option<u64>,
    pub size_max: Option<u64>,
    pub grep_ignore_case: bool,
    pub grep_lines_after: Option<usize>,
    pub grep_lines_before: Option<usize>,
    pub find_depth: Option<usize>,
    pub regex_patterns: Vec<String>,
    pub fixed_strings: Vec<String>,
    pub folders: Vec<PathBuf>,
    pub files: Vec<String>,
}

/// A path given on the command line, with what is known of it.
#[derive(Debug)]
pub struct Positional {
    pub path: PathBuf,
    /// Whether the path names an existing folder.
    pub is_dir: bool,
    /// The path as text, if it is valid Unicode.
    pub text: Option<String>,
}

/// The command line, parsed.
#[derive(Debug)]
pub struct Cli {
    pub save_default_config: bool,
    pub show_config: bool,
    pub case_sensitive_filenames: bool,
    pub case_sensitive_contents: bool,
    pub match_path: bool,
    pub times: Option<String>,
    pub after: Option<usize>,
    pub before: Option<usize>,
    pub depth: Option<usize>,
    pub errors: bool,
    pub regex: Vec<String>,
    pub fixed: Vec<String>,
    pub positional: Vec<Positional>,
    pub debug: bool,
}

/// Why a time could not be read.
#[derive(Debug, Clone, Copy, PartialEq, Eq, Structural)]
pub enum TimeError {
    /// The text is empty.
    Blank,
    /// The text holds something other than digits and one unit letter.
    Syntax,
    /// More than two times were given.
    TooManyTimes,
    /// The time lies before the epoch.
    OutOfRange,
}

/// Why a request could not be put together.
#[derive(Debug, Clone, Copy, PartialEq, Eq, Structural)]
pub enum OptionsError {
    /// The argument list is empty.
    MissingProgname,
    /// The time option could not be read.
    Time(TimeError),
}

impl TimeError {
    /// The line shown to the user for this error.
    pub open spec fn message_text(self) -> Seq<char> {
        match self {
            TimeError::Blank => "blank time string"@,
            TimeError::Syntax => "expecting 0-9 followed by s, m, h or d"@,
            TimeError::TooManyTimes => "Too many times"@,
            TimeError::OutOfRange => "time is out of range"@,
        }
    }

    /// The line shown to the user for this error.
    pub fn message(&self) -> (out: String)
        ensures
            out@ == self.message_text(),
    {
        match self {
            TimeError::Blank => String::from_str("blank time string"),
            TimeError::Syntax => String::from_str("expecting 0-9 followed by s, m, h or d"),
            TimeError::TooManyTimes => String::from_str("Too many times"),
            TimeError::OutOfRange => String::from_str("time is out of range"),
        }
    }
}

impl OptionsError {
    /// The line shown to the user for this error.
    pub open spec fn message_text(self) -> Seq<char> {
        match self {
            OptionsError::MissingProgname => "missing progname in command arguments"@,
            OptionsError::Time(e) => e.message_text(),
        }
    }

    /// The line shown to the user for this error.
    pub fn message(&self) -> (out: String)
        ensures
            out@ == self.message_text(),
    {
        match self {
            OptionsError::MissingProgname => String::from_str(
                "missing progname in command arguments",
            ),
            OptionsError::Time(e) => e.message(),
        }
    }
}

/// Seconds in a day, the unit of a time without a unit letter.
pub const SECONDS_PER_DAY: u64 = 86400;

/// Whether `c` is a decimal digit.
pub open spec fn is_digit(c: char) -> bool {
    '0' <= c <= '9'
}

/// Whether `c` is one of the unit letters `s`, `m`, `h`, `d`.
pub open spec fn is_unit(c: char) -> bool {
    c == 's' || c == 'm' || c == 'h' || c == 'd'
}

/// The seconds in one unit: second, minute, hour, day.
pub open spec fn unit_seconds(c: char) -> nat {
    if c == 's' {
        1
    } else if c == 'm' {
        60
    } else if c == 'h' {
        3600
    } else {
        86400
    }
}

/// The number that the digits of `text` spell, other characters passed
/// over.
pub open spec fn digits_value(text: Seq<char>) -> nat
    decreases text.len(),
{
    if text.len() == 0 {
        0
    } else if is_digit(text.last()) {
        digits_value(text.drop_last()) * 10 + (text.last() as nat - '0' as nat) as nat
    } else {
        digits_value(text.drop_last())
    }
}

/// How many unit letters `text` holds.
pub open spec fn unit_count(text: Seq<char>) -> nat
    decreases text.len(),
{
    if text.len() == 0 {
        0
    } else {
        unit_count(text.drop_last()) + if is_unit(text.last()) {
            1nat
        } else {
            0nat
        }
    }
}

/// The seconds in the unit that `text` names, or in a day if it names
/// none.
pub open spec fn scale_of(text: Seq<char>) -> nat
    decreases text.len(),
{
    if text.len() == 0 {
        86400
    } else if is_unit(text.last()) {
        unit_seconds(text.last())
    } else {
        scale_of(text.drop_last())
    }
}

/// A time is written with digits and at most one unit letter.
pub open spec fn well_formed_time(text: Seq<char>) -> bool {
    &&& forall|i: int| 0 <= i < text.len() ==> is_digit(#[trigger] text[i]) || is_unit(text[i])
    &&& unit_count(text) <= 1
}

/// How many seconds back from now `text` points.
pub open spec fn seconds_back(text: Seq<char>) -> nat {
    digits_value(text) * scale_of(text)
}

/// The time, in seconds since the epoch, that lies as far back from `now`
/// as `text` says.
pub open spec fn parsed_time(text: Seq<char>, now: u64) -> Result<u64, TimeError> {
    if text.len() == 0 {
        Err(TimeError::Blank)
    } else if !well_formed_time(text) {
        Err(TimeError::Syntax)
    } else if seconds_back(text) > now {
        Err(TimeError::OutOfRange)
    } else {
        Ok((now - seconds_back(text)) as u64)
    }
}

/// The offset of the first comma in `text`, or its length if it has none.
pub open spec fn first_comma(text: Seq<char>) -> int
    decreases text.len(),
{
    if text.len() == 0 {
        0
    } else if text[0] == ',' {
        0
    } else {
        1 + first_comma(text.drop_first())
    }
}

/// The time bounds that the time option `text` asks for: one time is a
/// lower bound, two times, parted by a comma, are a lower and an upper
/// bound.
pub open spec fn parsed_times(text: Seq<char>, now: u64) -> Result<
    (Option<u64>, Option<u64>),
    TimeError,
> {
    let at = first_comma(text);
    if at >= text.len() {
        match parsed_time(text, now) {
            Ok(from) => Ok((Some(from), None)),
            Err(e) => Err(e),
        }
    } else {
        let first = text.subrange(0, at);
        let second = text.subrange(at + 1, text.len() as int);
        if first_comma(second) < second.len() {
            Err(TimeError::TooManyTimes)
        } else {
            match parsed_time(first, now) {
                Err(e) => Err(e),
                Ok(from) => match parsed_time(second, now) {
                    Err(e) => Err(e),
                    Ok(till) => Ok((Some(from), Some(till))),
                },
            }
        }
    }
}

/// The folders among the paths given on the command line.
pub open spec fn folders_among(positional: Seq<Positional>) -> Seq<PathBuf>
    decreases positional.len(),
{
    if positional.len() == 0 {
        Seq::empty()
    } else if positional.last().is_dir {
        folders_among(positional.drop_last()).push(positional.last().path)
    } else {
        folders_among(positional.drop_last())
    }
}

/// The file names among the paths given on the command line: those that
/// are no folders and are valid Unicode.
pub open spec fn files_among(positional: Seq<Positional>) -> Seq<String>
    decreases positional.len(),
{
    if positional.len() == 0 {
        Seq::empty()
    } else if !positional.last().is_dir && positional.last().text is Some {
        files_among(positional.drop_last()).push(positional.last().text->0)
    } else {
        files_among(positional.drop_last())
    }
}

/// The folders a search starts from: those given, or `.` if none was.
pub open spec fn start_folders(positional: Seq<Positional>) -> Seq<PathBuf> {
    if folders_among(positional).len() == 0 {
        seq![path_from_text(seq!['.'])]
    } else {
        folders_among(positional)
    }
}

/// The first comma is inside the text or at its end, and no comma stands
/// before it.
pub proof fn lemma_first_comma(text: Seq<char>)
    ensures
        0 <= first_comma(text) <= text.len(),
        forall|i: int| 0 <= i < first_comma(text) ==> text[i] != ',',
        first_comma(text) < text.len() ==> text[first_comma(text)] == ',',
    decreases text.len(),
{
    if text.len() > 0 && text[0] != ',' {
        let rest = text.drop_first();
        lemma_first_comma(rest);
        assert forall|i: int| 0 <= i < first_comma(text) implies text[i] != ',' by {
            if i > 0 {
                assert(text[i] == rest[i - 1]);
            }
        }
    }
}

/// A text without a comma before `at` and with one at `at` has its first
/// comma there; a text without any comma has none.
pub proof fn lemma_first_comma_is(text: Seq<char>, at: int)
    requires
        0 <= at <= text.len(),
        forall|i: int| 0 <= i < at ==> text[i] != ',',
        at < text.len() ==> text[at] == ',',
    ensures
        first_comma(text) == at,
{
    lemma_first_comma(text);
}

/// The offset of the first comma in `text` at or behind `from`, counted in
/// characters, or the length of the text if there is none.
fn find_comma(text: &str, from: usize) -> (at: usize)
    requires
        from <= text@.len(),
    ensures
        from <= at <= text@.len(),
        forall|i: int| from <= i < at ==> text@[i] != ',',
        at < text@.len() ==> text@[at as int] == ',',
{
    let len = text.unicode_len();
    let mut at = from;
    while at < len && text.get_char(at) != ','
        invariant
            from <= at <= len == text@.len(),
            forall|i: int| from <= i < at ==> text@[i] != ',',
        decreases len - at,
    {
        at += 1;
    }
    at
}

impl CommandOptions {
    /// Reads a time such as `3d`, `12h`, `90m` or `45s`, meant as that
    /// long ago, and returns the point in time it names, in seconds since
    /// the epoch. A number without a unit counts days. `now` is the
    /// current time.
    pub fn parse_time(time_str: &str, now: u64) -> (r: Result<u64, TimeError>)
        ensures
            r == parsed_time(time_str@, now),
    {
        if time_str.unicode_len() == 0 {
            return Err(TimeError::Blank);
        }
        let mut num: u64 = 0;
        let mut too_big = false;
        let mut scale: u64 = 0;
        let mut bad = false;
        for ch in it: time_str.chars()
            invariant
                it.seq() == time_str@,
                !too_big ==> num == digits_value(time_str@.take(it.index() as int)) && num <= now,
                too_big ==> digits_value(time_str@.take(it.index() as int)) > now,
                !bad ==> well_formed_time(time_str@.take(it.index() as int)),
                bad ==> !well_formed_time(time_str@),
                !bad ==> (scale == 0 <==> unit_count(time_str@.take(it.index() as int)) == 0),
                !bad && scale != 0 ==> scale == scale_of(time_str@.take(it.index() as int)),
                !bad && scale == 0 ==> scale_of(time_str@.take(it.index() as int)) == 86400,
                scale <= 86400,
        {
            let ghost i = it.index();
            let ghost before = time_str@.take(i);
            let ghost upto = time_str@.take(i + 1);
            proof {
                assert(upto.drop_last() == before);
                if !well_formed_time(upto) {
                    lemma_malformed_prefix(time_str@, i + 1);
                }
                assert forall|k: int| 0 <= k < before.len() implies before[k] == upto[k] by {}
            }
            if ch >= '0' && ch <= '9' {
                let digit = (ch as u32 - '0' as u32) as u64;
                if !too_big {
                    if digit > now || num > (now - digit) / 10 {
                        too_big = true;
                    } else {
                        num = num * 10 + digit;
                    }
                }
            } else if ch == 's' || ch == 'm' || ch == 'h' || ch == 'd' {
                if scale != 0 {
                    bad = true;
                } else if ch == 's' {
                    scale = 1;
                } else if ch == 'm' {
                    scale = 60;
                } else if ch == 'h' {
                    scale = 60 * 60;
                } else {
                    scale = 24 * 60 * 60;
                }
            } else {
                bad = true;
            }
        }
        proof {
            assert(time_str@.take(time_str@.len() as int) == time_str@);
        }
        if bad {
            return Err(TimeError::Syntax);
        }
        if scale == 0 {
            scale = SECONDS_PER_DAY;
        }
        if too_big {
            proof {
                assert(seconds_back(time_str@) >= digits_value(time_str@)) by (nonlinear_arith)
                    requires
                        seconds_back(time_str@) == digits_value(time_str@) * scale_of(time_str@),
                        scale_of(time_str@) >= 1,
                ;
            }
            return Err(TimeError::OutOfRange);
        }
        assert(num as u128 * scale as u128 <= 0xffff_ffff_ffff_ffff * 86400) by (nonlinear_arith)
            requires
                num <= 0xffff_ffff_ffff_ffff,
                scale <= 86400,
        ;
        let back: u128 = num as u128 * scale as u128;
        if back > now as u128 {
            Err(TimeError::OutOfRange)
        } else {
            Ok(now - back as u64)
        }
    }

    /// Reads the time option: one time, or two parted by a comma.
    pub fn parse_times(time_opt: &Option<String>, now: u64) -> (r: Result<
        (Option<u64>, Option<u64>),
        TimeError,
    >)
        ensures
            r == match time_opt {
                None => Ok::<(Option<u64>, Option<u64>), TimeError>((None, None)),
                Some(text) => parsed_times(text@, now),
            },
    {
        match time_opt {
            None => Ok((None, None)),
            Some(time_str) => {
                let text = time_str.as_str();
                let len = text.unicode_len();
                let at = find_comma(text, 0);
                proof {
                    lemma_first_comma_is(text@, at as int);
                }
                if at >= len {
                    match Self::parse_time(text, now) {
                        Ok(from) => Ok((Some(from), None)),
                        Err(e) => Err(e),
                    }
                } else {
                    let next = find_comma(text, at + 1);
                    let first = text.substring_char(0, at);
                    let second = text.substring_char(at + 1, len);
                    proof {
                        assert forall|i: int| 0 <= i < next - at - 1 implies second@[i]
                            != ',' by {
                        }
                        lemma_first_comma_is(second@, next - at - 1);
                    }
                    if next < len {
                        Err(TimeError::TooManyTimes)
                    } else {
                        match Self::parse_time(first, now) {
                            Err(e) => Err(e),
                            Ok(from) => match Self::parse_time(second, now) {
                                Err(e) => Err(e),
                                Ok(till) => Ok((Some(from), Some(till))),
                            },
                        }
                    }
                }
            },
        }
    }

    /// What [`CommandOptions::new`] makes of the command line.
    pub open spec fn made_from(self, progname: String, cli: Cli, now: u64) -> bool {
        &&& self.progname == progname
        &&& self.debug == cli.debug
        &&& self.save_default_config == cli.save_default_config
        &&& self.show_config == cli.show_config
        &&& self.report_supressed_errors == cli.errors
        &&& self.find_iname == !cli.case_sensitive_filenames
        &&& self.find_match_basename == !cli.match_path
        &&& Ok::<(Option<u64>, Option<u64>), TimeError>((self.time_from, self.time_till))
            == match cli.times {
            None => Ok::<(Option<u64>, Option<u64>), TimeError>((None, None)),
            Some(text) => parsed_times(text@, now),
        }
        &&& self.size_min is None
        &&& self.size_max is None
        &&& self.grep_ignore_case == !cli.case_sensitive_contents
        &&& self.grep_lines_after == cli.after
        &&& self.grep_lines_before == cli.before
        &&& self.find_depth == cli.depth
        &&& self.regex_patterns == cli.regex
        &&& self.fixed_strings == cli.fixed
        &&& self.folders@ == start_folders(cli.positional@)
        &&& self.files@ == files_among(cli.positional@)
    }

    /// Puts the request together from the arguments of the program and
    /// the parsed command line. Case-sensitive matching is asked for by
    /// flags, so the request holds their opposites. The paths that name
    /// folders are where the search starts; if there is none, it starts in
    /// `.`. The other paths name the files that are asked for.
    pub fn new(args: &[String], cli: Cli, now: u64) -> (r: Result<CommandOptions, OptionsError>)
        ensures
            args@.len() == 0 ==> r == Err::<CommandOptions, OptionsError>(
                OptionsError::MissingProgname,
            ),
            args@.len() > 0 ==> match (match cli.times {
                None => Ok::<(Option<u64>, Option<u64>), TimeError>((None, None)),
                Some(text) => parsed_times(text@, now),
            }) {
                Err(e) => r == Err::<CommandOptions, OptionsError>(OptionsError::Time(e)),
                Ok(_) => r matches Ok(opt) && opt.made_from(args@[0], cli, now),
            },
    {
        if args.len() == 0 {
            return Err(OptionsError::MissingProgname);
        }
        let progname = args[0].clone();
        let (time_from, time_till) = match Self::parse_times(&cli.times, now) {
            Ok(times) => times,
            Err(e) => {
                return Err(OptionsError::Time(e));
            },
        };
        let mut folders: Vec<PathBuf> = Vec::new();
        let mut files: Vec<String> = Vec::new();
        let mut i: usize = 0;
        while i < cli.positional.len()
            invariant
                i <= cli.positional@.len(),
                folders@ == folders_among(cli.positional@.take(i as int)),
                files@ == files_among(cli.positional@.take(i as int)),
            decreases cli.positional@.len() - i,
        {
            proof {
                let upto = cli.positional@.take(i as int + 1);
                assert(upto.drop_last() == cli.positional@.take(i as int));
            }
            let given = &cli.positional[i];
            if given.is_dir {
                folders.push(given.path.clone());
            } else {
                match &given.text {
                    Some(file) => {
                        files.push(file.clone());
                    },
                    None => {},
                }
            }
            i += 1;
        }
        proof {
            assert(cli.positional@.take(cli.positional@.len() as int) == cli.positional@);
        }
        if folders.len() == 0 {
            proof {
                reveal_strlit(".");
                assert("."@ == seq!['.']);
            }
            folders.push(path_from("."));
        }
        assert(folders@ == start_folders(cli.positional@));
        Ok(
            CommandOptions {
                progname,
                debug: cli.debug,
                save_default_config: cli.save_default_config,
                show_config: cli.show_config,
                report_supressed_errors: cli.errors,
                find_iname: !cli.case_sensitive_filenames,
                find_match_basename: !cli.match_path,
                time_from,
                time_till,
                size_min: None,
                size_max: None,
                grep_ignore_case: !cli.case_sensitive_contents,
                grep_lines_after: cli.after,
                grep_lines_before: cli.before,
                find_depth: cli.depth,
                regex_patterns: cli.regex,
                fixed_strings: cli.fixed,
                folders,
                files,
            },
        )
    }

    /// Whether the run only lists the files it finds: no pattern to look
    /// for inside them was given.
    pub fn find_only(&self) -> (b: bool)
        ensures
            b == (self.fixed_strings@.len() == 0 && self.regex_patterns@.len() == 0),
    {
        self.fixed_strings.len() == 0 && self.regex_patterns.len() == 0
    }
}

/// A text with a malformed beginning is malformed.
pub proof fn lemma_malformed_prefix(text: Seq<char>, n: int)
    requires
        0 <= n <= text.len(),
        !well_formed_time(text.take(n)),
    ensures
        !well_formed_time(text),
{
    lemma_unit_count_grows(text, n);
    let head = text.take(n);
    if exists|i: int| 0 <= i < head.len() && !(is_digit(#[trigger] head[i]) || is_unit(head[i])) {
        let i = choose|i: int|
            0 <= i < head.len() && !(is_digit(#[trigger] head[i]) || is_unit(head[i]));
    }
}

/// A beginning of a text holds no more unit letters than the text.
pub proof fn lemma_unit_count_grows(text: Seq<char>, n: int)
    requires
        0 <= n <= text.len(),
    ensures
        unit_count(text.take(n)) <= unit_count(text),
    decreases text.len() - n,
{
    if n < text.len() {
        assert(text.take(n + 1).drop_last() == text.take(n));
        lemma_unit_count_grows(text, n + 1);
    } else {
        assert(text.take(n) == text);
    }
}

} // verus!
