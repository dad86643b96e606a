//! Shared helpers: the outcome of a finished subprocess, and terminal colors.

use vstd::prelude::*;
use owo_colors::OwoColorize;
use crate::text::{chars_of, dec_signed, i64_to_string, string_of, trim, trim_str};

verus! {

/// The SlothLabs funding page.
pub const FUNDING_URL: &'static str = "https://slothlabs.org/pricing";

/// The ANSI escape character.
pub open spec fn esc() -> Seq<char> {
    seq!['\u{1b}']
}

/// `s` in green, as owo-colors writes it: `ESC[32m`, the text, `ESC[39m`.
pub open spec fn green_spec(s: Seq<char>) -> Seq<char> {
    esc() + "[32m"@ + s + esc() + "[39m"@
}

/// `s` in red: `ESC[31m`, the text, `ESC[39m`.
pub open spec fn red_spec(s: Seq<char>) -> Seq<char> {
    esc() + "[31m"@ + s + esc() + "[39m"@
}

/// `s` in yellow: `ESC[33m`, the text, `ESC[39m`.
pub open spec fn yellow_spec(s: Seq<char>) -> Seq<char> {
    esc() + "[33m"@ + s + esc() + "[39m"@
}

/// `s` in cyan: `ESC[36m`, the text, `ESC[39m`.
pub open spec fn cyan_spec(s: Seq<char>) -> Seq<char> {
    esc() + "[36m"@ + s + esc() + "[39m"@
}

/// `s` in magenta: `ESC[35m`, the text, `ESC[39m`.
pub open spec fn magenta_spec(s: Seq<char>) -> Seq<char> {
    esc() + "[35m"@ + s + esc() + "[39m"@
}

/// `s` in white: `ESC[37m`, the text, `ESC[39m`.
pub open spec fn white_spec(s: Seq<char>) -> Seq<char> {
    esc() + "[37m"@ + s + esc() + "[39m"@
}

/// `s` underlined: `ESC[4m`, the text, `ESC[0m`.
pub open spec fn underline_spec(s: Seq<char>) -> Seq<char> {
    esc() + "[4m"@ + s + esc() + "[0m"@
}

/// `s` in bold: `ESC[1m`, the text, `ESC[0m`.
pub open spec fn bold_spec(s: Seq<char>) -> Seq<char> {
    esc() + "[1m"@ + s + esc() + "[0m"@
}

/// `s` dimmed: `ESC[2m`, the text, `ESC[0m`.
pub open spec fn dimmed_spec(s: Seq<char>) -> Seq<char> {
    esc() + "[2m"@ + s + esc() + "[0m"@
}

/// owo-colors' `OwoColorize::green`, displayed: the foreground color code of
/// green (32), the text, and the default-foreground code (39).
#[verifier::external_body]
pub fn green(s: &str) -> (r: String)
    ensures
        r@ == green_spec(s@),
{
    s.green().to_string()
}

/// owo-colors' `OwoColorize::red`, displayed: color code 31, the text, code 39.
#[verifier::external_body]
pub fn red(s: &str) -> (r: String)
    ensures
        r@ == red_spec(s@),
{
    s.red().to_string()
}

/// owo-colors' `OwoColorize::yellow`, displayed: color code 33, the text, code 39.
#[verifier::external_body]
pub fn yellow(s: &str) -> (r: String)
    ensures
        r@ == yellow_spec(s@),
{
    s.yellow().to_string()
}

/// owo-colors' `OwoColorize::cyan`, displayed: color code 36, the text, code 39.
#[verifier::external_body]
pub fn cyan(s: &str) -> (r: String)
    ensures
        r@ == cyan_spec(s@),
{
    s.cyan().to_string()
}

/// owo-colors' `OwoColorize::magenta`, displayed: color code 35, the text, code 39.
#[verifier::external_body]
pub fn magenta(s: &str) -> (r: String)
    ensures
        r@ == magenta_spec(s@),
{
    s.magenta().to_string()
}

/// owo-colors' `OwoColorize::white`, displayed: color code 37, the text, code 39.
#[verifier::external_body]
pub fn white(s: &str) -> (r: String)
    ensures
        r@ == white_spec(s@),
{
    s.white().to_string()
}

/// owo-colors' `OwoColorize::underline`, displayed: style code 4, the text, reset code 0.
#[verifier::external_body]
pub fn underline(s: &str) -> (r: String)
    ensures
        r@ == underline_spec(s@),
{
    s.underline().to_string()
}

/// owo-colors' `OwoColorize::bold`, displayed: style code 1, the text, reset code 0.
#[verifier::external_body]
pub fn bold(s: &str) -> (r: String)
    ensures
        r@ == bold_spec(s@),
{
    s.bold().to_string()
}

/// owo-colors' `OwoColorize::dimmed`, displayed: style code 2, the text, reset code 0.
#[verifier::external_body]
pub fn dimmed(s: &str) -> (r: String)
    ensures
        r@ == dimmed_spec(s@),
{
    s.dimmed().to_string()
}

/// The arguments joined by single spaces.
pub open spec fn join_args(args: Seq<Seq<char>>) -> Seq<char>
    decreases args.len(),
{
    if args.len() == 0 {
        Seq::empty()
    } else if args.len() == 1 {
        args[0]
    } else {
        join_args(args.drop_last()) + " "@ + args.last()
    }
}

/// The strings of `v`, each by its characters.
pub open spec fn strs_view(v: Seq<&str>) -> Seq<Seq<char>> {
    v.map_values(|s: &str| s@)
}

/// `args` joined by single spaces, as `[&str]::join(" ")` gives it.
pub fn join_with_spaces(args: &Vec<&str>) -> (r: String)
    ensures
        r@ == join_args(strs_view(args@)),
{
    let n = args.len();
    let mut r = String::new();
    let mut i: usize = 0;
    while i < n
        invariant
            n == args@.len(),
            i <= n,
            r@ == join_args(strs_view(args@.take(i as int))),
        decreases n - i,
    {
        proof {
            let t = strs_view(args@.take(i + 1));
            assert(t.drop_last() =~= strs_view(args@.take(i as int)));
            assert(t.last() == args@[i as int]@);
        }
        if i == 0 {
            r = String::from_str(args[i]);
            proof {
                assert(strs_view(args@.take(1)).len() == 1);
            }
        } else {
            r = r.concat(" ").concat(args[i]);
        }
        i = i + 1;
    }
    proof {
        assert(args@.take(n as int) == args@);
    }
    r
}

/// What a finished command amounts to: its trimmed standard output when it
/// succeeded; otherwise a message naming the command line, the exit code
/// (`-1` when killed by a signal) and the trimmed standard error.
pub open spec fn run_outcome(
    program: Seq<char>,
    args: Seq<Seq<char>>,
    success: bool,
    code: Option<i32>,
    stdout: Seq<char>,
    stderr: Seq<char>,
) -> Result<Seq<char>, Seq<char>> {
    if success {
        Ok(trim(stdout))
    } else {
        Err(
            "`"@ + program + " "@ + join_args(args) + "` failed (exit "@ + dec_signed(
                match code {
                    Some(c) => c as int,
                    None => -1,
                },
            ) + "):\n"@ + trim(stderr),
        )
    }
}

/// The outcome of `program args` from its exit status and its output (already
/// decoded as text).
pub fn run_result(
    program: &str,
    args: &Vec<&str>,
    success: bool,
    code: Option<i32>,
    stdout: &str,
    stderr: &str,
) -> (r: Result<String, String>)
    ensures
        match (r, run_outcome(program@, strs_view(args@), success, code, stdout@, stderr@)) {
            (Ok(s), Ok(t)) => s@ == t,
            (Err(s), Err(t)) => s@ == t,
            _ => false,
        },
{
    if success {
        return Ok(trim_str(stdout));
    }
    let c: i64 = match code {
        Some(c) => c as i64,
        None => -1,
    };
    let msg = String::from_str("`").concat(program).concat(" ").concat(
        join_with_spaces(args).as_str(),
    ).concat("` failed (exit ").concat(i64_to_string(c).as_str()).concat("):\n").concat(
        trim_str(stderr).as_str(),
    );
    Err(msg)
}

/// `s` followed by spaces up to `width` characters, as `{:<width}` pads it.
pub open spec fn pad_right(s: Seq<char>, width: nat) -> Seq<char> {
    if s.len() >= width {
        s
    } else {
        s + Seq::new((width - s.len()) as nat, |i: int| ' ')
    }
}

/// `s` padded with spaces to `width` characters.
pub fn pad_to(s: &str, width: usize) -> (r: String)
    ensures
        r@ == pad_right(s@, width as nat),
{
    let mut v = chars_of(s);
    let n = v.len();
    if n >= width {
        return string_of(&v);
    }
    let mut k: usize = n;
    while k < width
        invariant
            n <= k <= width,
            v@.len() == k,
            v@ == s@ + Seq::new((k - n) as nat, |i: int| ' '),
            n == s@.len(),
        decreases width - k,
    {
        v.push(' ');
        k = k + 1;
        proof {
            assert(v@ =~= s@ + Seq::new((k - n) as nat, |i: int| ' '));
        }
    }
    string_of(&v)
}

/// A step being taken: a bold cyan `▸` and the message.
pub fn step_line(msg: &str) -> (r: String)
    ensures
        r@ == bold_spec(cyan_spec("\u{25b8}"@)) + " "@ + msg@,
{
    bold(cyan("\u{25b8}").as_str()).concat(" ").concat(msg)
}

/// A success: a bold green `✓` and the message.
pub fn ok_line(msg: &str) -> (r: String)
    ensures
        r@ == bold_spec(green_spec("\u{2713}"@)) + " "@ + msg@,
{
    bold(green("\u{2713}").as_str()).concat(" ").concat(msg)
}

/// A warning: a bold yellow `!` and the message in yellow.
pub fn warn_line(msg: &str) -> (r: String)
    ensures
        r@ == bold_spec(yellow_spec("!"@)) + " "@ + yellow_spec(msg@),
{
    bold(yellow("!").as_str()).concat(" ").concat(yellow(msg).as_str())
}

/// A labelled value: the label and a colon, padded to 14 characters and
/// dimmed, then the value.
pub fn info_line(label: &str, value: &str) -> (r: String)
    ensures
        r@ == "  "@ + dimmed_spec(pad_right(label@ + ":"@, 14)) + " "@ + value@,
{
    let l = String::from_str(label).concat(":");
    let p = pad_to(l.as_str(), 14);
    String::from_str("  ").concat(dimmed(p.as_str()).as_str()).concat(" ").concat(value)
}

/// A section header, after a blank line: the message bold and underlined.
pub fn header_line(msg: &str) -> (r: String)
    ensures
        r@ == "\n"@ + underline_spec(bold_spec(msg@)),
{
    String::from_str("\n").concat(underline(bold(msg).as_str()).as_str())
}

/// The reminder that orbit is free, after a blank line, with the funding page.
pub fn funding_line() -> (r: String)
    ensures
        r@ == "\n"@ + magenta_spec("\u{2665}"@) + " built with "@ + magenta_spec("love"@)
            + " by SlothLabs \u{2014} free & open source. Support: "@ + underline_spec(
            cyan_spec(FUNDING_URL@),
        ),
{
    String::from_str("\n").concat(magenta("\u{2665}").as_str()).concat(" built with ").concat(
        magenta("love").as_str(),
    ).concat(" by SlothLabs \u{2014} free & open source. Support: ").concat(
        underline(cyan(FUNDING_URL).as_str()).as_str(),
    )
}

} // verus!
