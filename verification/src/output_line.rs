//! The layout of one line of output.
//!
//! An output line names the file and the line number, both in colour, then
//! a one-character marker that says what kind of line it is, some padding,
//! and the text of the line.

use crate::colour::colour_end;
use crate::colour::colour_end_code;
use crate::colour::colour_file;
use crate::colour::colour_file_code;
use crate::colour::colour_line;
use crate::colour::colour_line_code;
use crate::text::byte_len;
use crate::text::str_byte_len;
use vstd::prelude::*;
use vstd::string::StringExecFns;

verus! {

/// The width of a padding step: the text of a line starts this many
/// columns, or fewer, behind its marker.
pub const PADDING_SIZE: usize = 4;

/// The least width that is reckoned for a line number.
pub const MIN_NUMBER_WIDTH: usize = 4;

/// The character for the decimal digit `d`.
pub open spec fn digit_char(d: int) -> char {
    ('0' as int + d) as char
}

/// `n` in decimal, without leading zeros.
pub open spec fn decimal(n: nat) -> Seq<char>
    decreases n,
{
    if n < 10 {
        seq![digit_char(n as int)]
    } else {
        decimal(n / 10).push(digit_char((n % 10) as int))
    }
}

/// The length that is reckoned for the part of an output line before its
/// padding: the path, a colon, the line number in at least four columns,
/// the marker and two blanks.
pub open spec fn prefix_len(path: Seq<char>, number: nat) -> int {
    let digits = decimal(number).len();
    byte_len(path) + 1 + (if digits < 4 {
        4
    } else {
        digits as int
    }) + 1 + 2
}

/// How many padding characters an output line gets: between one and four,
/// so that prefix and padding together are a multiple of four.
pub open spec fn padding_len(path: Seq<char>, number: nat) -> int {
    4 - prefix_len(path, number) % 4
}

/// The padding character: a blank, or a middle dot that makes the padding
/// visible when debugging.
pub open spec fn padding_char(debug: bool) -> char {
    if debug {
        '\u{b7}'
    } else {
        ' '
    }
}

/// The padding of an output line.
pub open spec fn padding(path: Seq<char>, number: nat, debug: bool) -> Seq<char> {
    Seq::new(padding_len(path, number) as nat, |i: int| padding_char(debug))
}

/// One line of output.
pub open spec fn match_line(
    path: Seq<char>,
    debug: bool,
    number: nat,
    marker: Seq<char>,
    line: Seq<char>,
) -> Seq<char> {
    colour_file() + path + colour_end() + seq![':'] + colour_line() + decimal(number)
        + colour_end() + marker + padding(path, number, debug) + line
}

/// A number has at least one digit, and every digit is a decimal digit.
pub proof fn lemma_decimal_digits(n: nat)
    ensures
        decimal(n).len() >= 1,
        forall|i: int| 0 <= i < decimal(n).len() ==> '0' <= #[trigger] decimal(n)[i] <= '9',
    decreases n,
{
    if n >= 10 {
        lemma_decimal_digits(n / 10);
    }
}

/// The padding is never empty and never longer than four characters.
pub proof fn lemma_padding_len(path: Seq<char>, number: nat)
    ensures
        1 <= padding_len(path, number) <= 4,
        (prefix_len(path, number) + padding_len(path, number)) % 4 == 0,
{
}

/// `n` in decimal.
pub fn decimal_string(n: usize) -> (out: String)
    ensures
        out@ == decimal(n as nat),
{
    let mut digits: Vec<char> = Vec::new();
    let mut rest = n;
    while rest >= 10
        invariant
            decimal(n as nat) == decimal(rest as nat) + digits@.reverse(),
        decreases rest,
    {
        let d = (rest % 10) as u8;
        let c = (48u8 + d) as char;
        digits.push(c);
        rest = rest / 10;
    }
    let c = (48u8 + rest as u8) as char;
    digits.push(c);
    let mut out = String::new();
    let mut i = digits.len();
    while i > 0
        invariant
            i <= digits@.len(),
            out@ == digits@.reverse().take(digits@.len() - i),
        decreases i,
    {
        i -= 1;
        proof {
            let r = digits@.reverse();
            let k = digits@.len() - i - 1;
            assert(r.take(k + 1) == r.take(k).push(r[k]));
        }
        out.push(digits[i]);
    }
    out
}

/// Lays out one line of output for the file at `path`.
pub fn format_match_line(path: &str, debug: bool, line_number: usize, sep: &str, line: &str) -> (out:
    String)
    ensures
        out@ == match_line(path@, debug, line_number as nat, sep@, line@),
{
    let number = decimal_string(line_number);
    let digits = str_byte_len(number.as_str());
    proof {
        lemma_decimal_digits(line_number as nat);
        crate::text::lemma_ascii_digits(number@);
    }
    let width = if digits < MIN_NUMBER_WIDTH {
        MIN_NUMBER_WIDTH
    } else {
        digits
    };
    let used = (str_byte_len(path) % PADDING_SIZE + width % PADDING_SIZE) % PADDING_SIZE;
    let padding_required = PADDING_SIZE - used;
    let fill = if debug {
        '\u{b7}'
    } else {
        ' '
    };
    let mut out = String::from_str(colour_file_code());
    out.append(path);
    out.append(colour_end_code());
    out.push(':');
    out.append(colour_line_code());
    out.append(number.as_str());
    out.append(colour_end_code());
    out.append(sep);
    let ghost head = out@;
    let mut k: usize = 0;
    while k < padding_required
        invariant
            k <= padding_required,
            fill == padding_char(debug),
            out@ == head + Seq::new(k as nat, |i: int| padding_char(debug)),
        decreases padding_required - k,
    {
        out.push(fill);
        k += 1;
    }
    out.append(line);
    out
}

} // verus!
