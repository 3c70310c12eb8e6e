//! The shot-profile token grammar: typed value readers and the step
//! sub-language.
//!
//! Every parser takes the input string and a character position and returns
//! the position it stopped at together with the parsed value; its contract
//! equates the outcome with a specification function over the input's
//! `Seq<char>` view.  The token rules:
//!
//! * a boolean is exactly `0` or `1`;
//! * a number is a decimal with a literal dot (`D.`, `D.D`, `.D`), tried
//!   first, falling back to a plain integer no larger than `65535`; a dotted
//!   number whose digit run reaches the end of the input falls back too, so
//!   `25.00` at the very end of a document reads as `25` leaving `.00`;
//! * an enum tag is matched against its closed set, longer tags first;
//! * a string is either brace-delimited with balanced nesting, closed only
//!   by a depth-zero `}`, or an unquoted run ending at a space, tab or
//!   newline.
//!
//! Numbers are exact decimals: at most nineteen digits of mantissa; longer
//! numerals are rejected as [`Error::MalformedValue`].

use vstd::prelude::*;

use crate::Error;
use crate::num::{pow10, Num};
use crate::scan::{
    all_digits, digits_val, is_digit_c, lemma_digits_prefix_le, lemma_digits_val_bound,
    lemma_digits_val_step, lemma_run_len_bound, match_lit, run_len, scan_run, tag_at, CharClass,
};
use crate::num::{lemma_pow10_max_scale, lemma_pow10_mono};

verus! {

/// How a channel approaches its target during a step: jump then hold, or a
/// straight ramp.
#[derive(Clone, Copy, Debug, PartialEq, Eq, Structural)]
pub enum TransitionType {
    Fast,
    Smooth,
}

/// Which temperature sensor a step reads.
#[derive(Clone, Copy, Debug, PartialEq, Eq, Structural)]
pub enum SensorType {
    Coffee,
    Water,
}

/// Which channel the pump drives during a step.
#[derive(Clone, Copy, Debug, PartialEq, Eq, Structural)]
pub enum PumpType {
    Flow,
    Pressure,
}

/// The early-exit condition kind of a step.
#[derive(Clone, Copy, Debug, PartialEq, Eq, Structural)]
pub enum ExitType {
    PressureUnder,
    PressureOver,
    FlowUnder,
    FlowOver,
}

/// An enum-tag value that matched none of its closed set; holds the raw
/// text handed in.
#[derive(Clone, Debug)]
pub struct UnexpectedValueError(pub String);

/// A failed conversion into [`Prop`]; the conversions the library offers
/// never produce it.
#[derive(Clone, Debug)]
pub struct ConvertError(pub String);

impl TransitionType {
    /// The closed tag set `fast` / `smooth`, as an exact whole-string match.
    pub fn try_from(value: &str) -> (r: Result<TransitionType, UnexpectedValueError>)
        ensures
            value@ == "fast"@ ==> r == Ok::<_, UnexpectedValueError>(TransitionType::Fast),
            value@ == "smooth"@ ==> r == Ok::<_, UnexpectedValueError>(TransitionType::Smooth),
            value@ != "fast"@ && value@ != "smooth"@ ==> (r matches Err(e) && e.0@ == value@),
    {
        proof {
            reveal_strlit("fast");
            reveal_strlit("smooth");
            assert("fast"@.len() == 4 && "smooth"@.len() == 6);
        }
        if crate::scan::str_eq(value, "fast") {
            Ok(TransitionType::Fast)
        } else if crate::scan::str_eq(value, "smooth") {
            Ok(TransitionType::Smooth)
        } else {
            Err(UnexpectedValueError(value.to_owned()))
        }
    }
}

impl SensorType {
    /// The closed tag set `coffee` / `water`, as an exact whole-string match.
    pub fn try_from(value: &str) -> (r: Result<SensorType, UnexpectedValueError>)
        ensures
            value@ == "coffee"@ ==> r == Ok::<_, UnexpectedValueError>(SensorType::Coffee),
            value@ == "water"@ ==> r == Ok::<_, UnexpectedValueError>(SensorType::Water),
            value@ != "coffee"@ && value@ != "water"@ ==> (r matches Err(e) && e.0@ == value@),
    {
        proof {
            reveal_strlit("coffee");
            reveal_strlit("water");
            assert("coffee"@.len() == 6 && "water"@.len() == 5);
        }
        if crate::scan::str_eq(value, "coffee") {
            Ok(SensorType::Coffee)
        } else if crate::scan::str_eq(value, "water") {
            Ok(SensorType::Water)
        } else {
            Err(UnexpectedValueError(value.to_owned()))
        }
    }
}

impl PumpType {
    /// The closed tag set `flow` / `pressure`, as an exact whole-string match.
    pub fn try_from(value: &str) -> (r: Result<PumpType, UnexpectedValueError>)
        ensures
            value@ == "flow"@ ==> r == Ok::<_, UnexpectedValueError>(PumpType::Flow),
            value@ == "pressure"@ ==> r == Ok::<_, UnexpectedValueError>(PumpType::Pressure),
            value@ != "flow"@ && value@ != "pressure"@ ==> (r matches Err(e) && e.0@ == value@),
    {
        proof {
            reveal_strlit("flow");
            reveal_strlit("pressure");
            assert("flow"@.len() == 4 && "pressure"@.len() == 8);
        }
        if crate::scan::str_eq(value, "flow") {
            Ok(PumpType::Flow)
        } else if crate::scan::str_eq(value, "pressure") {
            Ok(PumpType::Pressure)
        } else {
            Err(UnexpectedValueError(value.to_owned()))
        }
    }
}

impl ExitType {
    /// The closed tag set of exit kinds, as an exact whole-string match.
    pub fn try_from(value: &str) -> (r: Result<ExitType, UnexpectedValueError>)
        ensures
            value@ == "pressure_under"@ ==> r == Ok::<_, UnexpectedValueError>(
                ExitType::PressureUnder,
            ),
            value@ == "pressure_over"@ ==> r == Ok::<_, UnexpectedValueError>(
                ExitType::PressureOver,
            ),
            value@ == "flow_under"@ ==> r == Ok::<_, UnexpectedValueError>(ExitType::FlowUnder),
            value@ == "flow_over"@ ==> r == Ok::<_, UnexpectedValueError>(ExitType::FlowOver),
            value@ != "pressure_under"@ && value@ != "pressure_over"@ && value@ != "flow_under"@
                && value@ != "flow_over"@ ==> (r matches Err(e) && e.0@ == value@),
    {
        proof {
            reveal_strlit("pressure_under");
            reveal_strlit("pressure_over");
            reveal_strlit("flow_under");
            reveal_strlit("flow_over");
            assert("pressure_under"@.len() == 14 && "pressure_over"@.len() == 13
                && "flow_under"@.len() == 10 && "flow_over"@.len() == 9);
        }
        if crate::scan::str_eq(value, "pressure_under") {
            Ok(ExitType::PressureUnder)
        } else if crate::scan::str_eq(value, "pressure_over") {
            Ok(ExitType::PressureOver)
        } else if crate::scan::str_eq(value, "flow_under") {
            Ok(ExitType::FlowUnder)
        } else if crate::scan::str_eq(value, "flow_over") {
            Ok(ExitType::FlowOver)
        } else {
            Err(UnexpectedValueError(value.to_owned()))
        }
    }
}




// ---------------------------------------------------------------------------
// Boolean values
// ---------------------------------------------------------------------------

/// A boolean token: exactly the character `0` or `1`.
pub open spec fn spec_bool_val(s: Seq<char>, pos: int) -> Result<(int, bool), Error> {
    if 0 <= pos < s.len() && (s[pos] == '0' || s[pos] == '1') {
        Ok((pos + 1, s[pos] == '1'))
    } else {
        Err(Error::MalformedValue)
    }
}

/// Reads a boolean token.
pub fn bool_val(s: &str, pos: usize) -> (r: Result<(usize, bool), Error>)
    requires
        pos <= s@.len(),
    ensures
        match r {
            Ok((p, v)) => spec_bool_val(s@, pos as int) == Ok::<_, Error>((p as int, v)),
            Err(e) => spec_bool_val(s@, pos as int) == Err::<(int, bool), _>(e),
        },
{
    if pos < s.unicode_len() {
        let c = s.get_char(pos);
        if c == '0' {
            return Ok((pos + 1, false));
        }
        if c == '1' {
            return Ok((pos + 1, true));
        }
    }
    Err(Error::MalformedValue)
}

// ---------------------------------------------------------------------------
// Numbers
// ---------------------------------------------------------------------------

/// Outcome of scanning for a dotted numeral at a position.
///
/// `Unfinished` marks a scan whose digit run hit the end of the input, which
/// the number reader treats like a failed match: the dotted form demands a
/// terminator after its digits.
pub enum FloatScan {
    Unfinished,
    NoMatch,
    Matched { end: int, int_len: int, frac_len: int },
}

/// Length of the digit run starting at `pos`.
pub open spec fn digit_run(s: Seq<char>, pos: int) -> int {
    run_len(s, pos, CharClass::Digit) as int
}

/// Scans for a dotted numeral `D.`, `D.D` or `.D` at `pos`.
///
/// A run of digits that reaches the end of the input leaves the scan
/// `Unfinished`; a missing dot or missing digits around a leading dot is
/// `NoMatch`.
pub open spec fn spec_float_scan(s: Seq<char>, pos: int) -> FloatScan {
    let d1 = digit_run(s, pos);
    if pos >= s.len() {
        FloatScan::Unfinished
    } else if d1 > 0 {
        if pos + d1 >= s.len() {
            FloatScan::Unfinished
        } else if s[pos + d1] == '.' {
            let p2 = pos + d1 + 1;
            let d2 = digit_run(s, p2);
            if p2 >= s.len() {
                FloatScan::Unfinished
            } else if d2 > 0 && p2 + d2 >= s.len() {
                FloatScan::Unfinished
            } else {
                FloatScan::Matched { end: p2 + d2, int_len: d1, frac_len: d2 }
            }
        } else {
            FloatScan::NoMatch
        }
    } else {
        if s[pos] == '.' {
            let p2 = pos + 1;
            let d2 = digit_run(s, p2);
            if p2 >= s.len() {
                FloatScan::Unfinished
            } else if d2 == 0 {
                FloatScan::NoMatch
            } else if p2 + d2 >= s.len() {
                FloatScan::Unfinished
            } else {
                FloatScan::Matched { end: p2 + d2, int_len: 0, frac_len: d2 }
            }
        } else {
            FloatScan::NoMatch
        }
    }
}

/// The digits of a matched dotted numeral, with the dot removed.
pub open spec fn spec_float_digits(s: Seq<char>, pos: int, int_len: int, frac_len: int) -> Seq<
    char,
> {
    s.subrange(pos, pos + int_len) + s.subrange(pos + int_len + 1, pos + int_len + 1 + frac_len)
}

/// The integer fallback: a digit run read as a plain integer, rejected
/// beyond `65535`.
pub open spec fn spec_int_fallback(s: Seq<char>, pos: int) -> Result<(int, Num), Error> {
    let d = digit_run(s, pos);
    if d == 0 {
        Err(Error::MalformedValue)
    } else if digits_val(s.subrange(pos, pos + d)) > 65535 {
        Err(Error::MalformedValue)
    } else {
        Ok((pos + d, Num { mantissa: digits_val(s.subrange(pos, pos + d)) as u64, scale: 0 }))
    }
}

/// A number token: the dotted decimal forms, else the integer fallback.
///
/// A matched dotted numeral with more than nineteen digits cannot be held
/// exactly and is malformed.
pub open spec fn spec_number_val(s: Seq<char>, pos: int) -> Result<(int, Num), Error> {
    match spec_float_scan(s, pos) {
        FloatScan::Matched { end, int_len, frac_len } => {
            if int_len + frac_len > 19 {
                Err(Error::MalformedValue)
            } else {
                Ok(
                    (
                        end,
                        Num {
                            mantissa: digits_val(spec_float_digits(s, pos, int_len, frac_len))
                                as u64,
                            scale: frac_len as u32,
                        },
                    ),
                )
            }
        },
        _ => spec_int_fallback(s, pos),
    }
}

/// Accumulates the digits `s[a..b]` onto the value of the digits already
/// read.
fn read_digits(s: &str, a: usize, b: usize, acc: u64, pref: Ghost<Seq<char>>) -> (r: u64)
    requires
        a <= b <= s@.len(),
        forall|j: int| a <= j < b ==> is_digit_c(s@[j]),
        all_digits(pref@),
        acc == digits_val(pref@),
        pref@.len() + (b - a) <= 19,
    ensures
        r == digits_val(pref@ + s@.subrange(a as int, b as int)),
{
    let mut i = a;
    let mut acc = acc;
    let ghost mut cur: Seq<char> = pref@ + s@.subrange(a as int, a as int);
    proof {
        assert(cur =~= pref@);
    }
    while i < b
        invariant
            a <= i <= b <= s@.len(),
            forall|j: int| a <= j < b ==> is_digit_c(s@[j]),
            cur == pref@ + s@.subrange(a as int, i as int),
            all_digits(cur),
            acc == digits_val(cur),
            cur.len() == pref@.len() + (i - a),
            pref@.len() + (b - a) <= 19,
        decreases b - i,
    {
        proof {
            lemma_digits_val_bound(cur);
            lemma_pow10_max_scale();
            lemma_pow10_mono(cur.len(), 18);
            assert(pow10(18) * 10 <= pow10(19)) by {
                assert(pow10(19) == 10 * pow10(18));
            }
        }
        let c = s.get_char(i);
        let d = (c as u32) - 48;
        assert(acc < pow10(18));
        assert(acc * 10 + d < pow10(19)) by (nonlinear_arith)
            requires
                acc < pow10(18),
                pow10(18) * 10 <= pow10(19),
                d <= 9,
        ;
        acc = acc * 10 + (d as u64);
        proof {
            let prev = cur;
            cur = cur.push(s@[i as int]);
            assert(cur.drop_last() =~= prev);
            assert(cur =~= pref@ + s@.subrange(a as int, (i + 1) as int));
        }
        i = i + 1;
    }
    proof {
        assert(cur =~= pref@ + s@.subrange(a as int, b as int));
    }
    acc
}

/// Reads a number token: dotted decimal first, then the integer fallback.
pub fn number_val(s: &str, pos: usize) -> (r: Result<(usize, Num), Error>)
    requires
        pos <= s@.len(),
    ensures
        match r {
            Ok((p, v)) => spec_number_val(s@, pos as int) == Ok::<_, Error>((p as int, v)),
            Err(e) => spec_number_val(s@, pos as int) == Err::<(int, Num), _>(e),
        },
{
    let n = s.unicode_len();
    proof {
        lemma_run_len_bound(s@, pos as int, CharClass::Digit);
    }
    let e1 = scan_run(s, pos, CharClass::Digit);
    let d1 = e1 - pos;
    if pos >= n {
        return int_fallback(s, pos);
    }
    if d1 > 0 {
        if e1 >= n {
            return int_fallback(s, pos);
        }
        if s.get_char(e1) != '.' {
            return int_fallback(s, pos);
        }
        let p2 = e1 + 1;
        proof {
            lemma_run_len_bound(s@, p2 as int, CharClass::Digit);
        }
        let e2 = scan_run(s, p2, CharClass::Digit);
        let d2 = e2 - p2;
        if p2 >= n {
            return int_fallback(s, pos);
        }
        if d2 > 0 && e2 >= n {
            return int_fallback(s, pos);
        }
        float_value(s, pos, d1, d2)
    } else {
        if s.get_char(pos) != '.' {
            return int_fallback(s, pos);
        }
        let p2 = pos + 1;
        proof {
            lemma_run_len_bound(s@, p2 as int, CharClass::Digit);
        }
        let e2 = scan_run(s, p2, CharClass::Digit);
        let d2 = e2 - p2;
        if p2 >= n {
            return int_fallback(s, pos);
        }
        if d2 == 0 {
            return int_fallback(s, pos);
        }
        if e2 >= n {
            return int_fallback(s, pos);
        }
        float_value(s, pos, 0, d2)
    }
}

/// Builds the exact decimal of a matched dotted numeral.
fn float_value(s: &str, pos: usize, int_len: usize, frac_len: usize) -> (r: Result<
    (usize, Num),
    Error,
>)
    requires
        s@.len() <= usize::MAX,
        pos + int_len < s@.len(),
        s@[pos + int_len] == '.',
        pos + int_len + 1 + frac_len <= s@.len(),
        forall|j: int| pos <= j < pos + int_len ==> is_digit_c(s@[j]),
        forall|j: int|
            pos + int_len + 1 <= j < pos + int_len + 1 + frac_len ==> is_digit_c(s@[j]),
        spec_float_scan(s@, pos as int) == (FloatScan::Matched {
            end: pos + int_len + 1 + frac_len as int,
            int_len: int_len as int,
            frac_len: frac_len as int,
        }),
    ensures
        match r {
            Ok((p, v)) => spec_number_val(s@, pos as int) == Ok::<_, Error>((p as int, v)),
            Err(e) => spec_number_val(s@, pos as int) == Err::<(int, Num), _>(e),
        },
{
    if int_len + frac_len > 19 {
        return Err(Error::MalformedValue);
    }
    let m1 = read_digits(s, pos, pos + int_len, 0, Ghost(Seq::empty()));
    proof {
        assert(Seq::<char>::empty() + s@.subrange(pos as int, pos + int_len) =~= s@.subrange(
            pos as int,
            pos + int_len,
        ));
    }
    let fs = pos + int_len + 1;
    let m = read_digits(s, fs, fs + frac_len, m1, Ghost(s@.subrange(pos as int, pos + int_len)));
    let ghost ds = spec_float_digits(s@, pos as int, int_len as int, frac_len as int);
    proof {
        assert(s@.subrange(pos as int, pos + int_len) + s@.subrange(
            fs as int,
            fs + frac_len as int,
        ) == ds);
        assert(all_digits(ds));
        lemma_digits_val_bound(ds);
        lemma_pow10_max_scale();
        lemma_pow10_mono(ds.len(), 19);
        assert(m == digits_val(ds));
    }
    Ok((fs + frac_len, Num { mantissa: m, scale: frac_len as u32 }))
}

/// Reads the integer fallback token.
fn int_fallback(s: &str, pos: usize) -> (r: Result<(usize, Num), Error>)
    requires
        pos <= s@.len(),
        !(spec_float_scan(s@, pos as int) is Matched),
    ensures
        match r {
            Ok((p, v)) => spec_number_val(s@, pos as int) == Ok::<_, Error>((p as int, v)),
            Err(e) => spec_number_val(s@, pos as int) == Err::<(int, Num), _>(e),
        },
{
    proof {
        lemma_run_len_bound(s@, pos as int, CharClass::Digit);
    }
    let e = scan_run(s, pos, CharClass::Digit);
    if e == pos {
        return Err(Error::MalformedValue);
    }
    let ghost run = s@.subrange(pos as int, e as int);
    proof {
        assert(all_digits(run));
    }
    let mut i = pos;
    let mut val: u64 = 0;
    while i < e
        invariant
            pos <= i <= e <= s@.len(),
            e == pos + digit_run(s@, pos as int),
            run == s@.subrange(pos as int, e as int),
            all_digits(run),
            forall|j: int| pos <= j < e ==> is_digit_c(s@[j]),
            val == digits_val(run.subrange(0, i - pos)),
            val <= 65535,
            !(spec_float_scan(s@, pos as int) is Matched),
        decreases e - i,
    {
        let c = s.get_char(i);
        let d = ((c as u32) - 48) as u64;
        proof {
            lemma_digits_val_step(run, i - pos);
            assert(run[i - pos] == s@[i as int]);
        }
        let next = val * 10 + d;
        proof {
            assert(next == digits_val(run.subrange(0, i + 1 - pos)));
        }
        if next > 65535 {
            proof {
                lemma_digits_prefix_le(run, i + 1 - pos);
                assert(digits_val(run) > 65535);
                assert(s@.subrange(pos as int, pos + digit_run(s@, pos as int)) == run);
            }
            return Err(Error::MalformedValue);
        }
        val = next;
        i = i + 1;
    }
    proof {
        assert(run.subrange(0, e - pos) =~= run);
    }
    Ok((e, Num { mantissa: val, scale: 0 }))
}

// ---------------------------------------------------------------------------
// Strings
// ---------------------------------------------------------------------------

/// An unquoted string: the run up to a space, a tab or a newline.
pub open spec fn spec_plain_string(s: Seq<char>, pos: int) -> (int, Seq<char>) {
    let e = pos + run_len(s, pos, CharClass::Plain);
    (e, s.subrange(pos, e))
}

/// Index of the `}` that closes a brace group scanned from `pos` at nesting
/// `depth`, if any.
pub open spec fn brace_close(s: Seq<char>, pos: int, depth: nat) -> Option<int>
    decreases s.len() - pos when 0 <= pos <= s.len()
{
    if pos < 0 || pos >= s.len() {
        None
    } else if s[pos] == '{' {
        brace_close(s, pos + 1, depth + 1)
    } else if s[pos] == '}' {
        if depth == 0 {
            Some(pos)
        } else {
            brace_close(s, pos + 1, (depth - 1) as nat)
        }
    } else {
        brace_close(s, pos + 1, depth)
    }
}

pub proof fn lemma_brace_close_bounds(s: Seq<char>, pos: int, depth: nat)
    requires
        0 <= pos <= s.len(),
    ensures
        brace_close(s, pos, depth) matches Some(ci) ==> pos <= ci < s.len() && s[ci] == '}',
    decreases s.len() - pos,
{
    if pos < s.len() {
        if s[pos] == '{' {
            lemma_brace_close_bounds(s, pos + 1, depth + 1);
        } else if s[pos] == '}' {
            if depth != 0 {
                lemma_brace_close_bounds(s, pos + 1, (depth - 1) as nat);
            }
        } else {
            lemma_brace_close_bounds(s, pos + 1, depth);
        }
    }
}

/// A brace-delimited string with balanced nesting: only a depth-zero `}`
/// closes it; an unclosed `{` is an unterminated string.
pub open spec fn spec_nested_string(s: Seq<char>, pos: int) -> Result<(int, Seq<char>), Error> {
    if 0 <= pos < s.len() && s[pos] == '{' {
        match brace_close(s, pos + 1, 0) {
            Some(ci) => Ok((ci + 1, s.subrange(pos + 1, ci))),
            None => Err(Error::UnterminatedString),
        }
    } else {
        Err(Error::UnterminatedString)
    }
}

/// Reads a brace-delimited string with balanced nesting.
pub fn nested_bracket_string_val(s: &str, pos: usize) -> (r: Result<(usize, String), Error>)
    requires
        pos <= s@.len(),
    ensures
        match r {
            Ok((p, v)) => spec_nested_string(s@, pos as int) == Ok::<_, Error>((p as int, v@)),
            Err(e) => spec_nested_string(s@, pos as int) == Err::<(int, Seq<char>), _>(e),
        },
{
    let n = s.unicode_len();
    if pos >= n || s.get_char(pos) != '{' {
        return Err(Error::UnterminatedString);
    }
    let mut cur = pos + 1;
    let mut depth: usize = 0;
    while cur < n
        invariant
            pos + 1 <= cur <= n == s@.len(),
            pos < s@.len() && s@[pos as int] == '{',
            depth <= cur - pos - 1,
            brace_close(s@, pos + 1, 0) == brace_close(s@, cur as int, depth as nat),
        decreases n - cur,
    {
        let c = s.get_char(cur);
        if c == '{' {
            depth = depth + 1;
        } else if c == '}' {
            if depth == 0 {
                proof {
                    lemma_brace_close_bounds(s@, pos + 1, 0);
                }
                let v = s.substring_char(pos + 1, cur).to_owned();
                return Ok((cur + 1, v));
            }
            depth = depth - 1;
        }
        cur = cur + 1;
    }
    Err(Error::UnterminatedString)
}

/// A string value: brace-delimited if it opens with `{`, else unquoted.
pub open spec fn spec_string_val(s: Seq<char>, pos: int) -> Result<(int, Seq<char>), Error> {
    if 0 <= pos < s.len() && s[pos] == '{' {
        spec_nested_string(s, pos)
    } else {
        Ok(spec_plain_string(s, pos))
    }
}

/// Reads an unquoted string.
pub fn plain_string_val(s: &str, pos: usize) -> (r: (usize, String))
    requires
        pos <= s@.len(),
    ensures
        r.0 == spec_plain_string(s@, pos as int).0,
        r.1@ == spec_plain_string(s@, pos as int).1,
{
    proof {
        lemma_run_len_bound(s@, pos as int, CharClass::Plain);
    }
    let e = scan_run(s, pos, CharClass::Plain);
    let v = s.substring_char(pos, e).to_owned();
    (e, v)
}

/// Reads a string value of either form.
pub fn string_val(s: &str, pos: usize) -> (r: Result<(usize, String), Error>)
    requires
        pos <= s@.len(),
    ensures
        match r {
            Ok((p, v)) => spec_string_val(s@, pos as int) == Ok::<_, Error>((p as int, v@)),
            Err(e) => spec_string_val(s@, pos as int) == Err::<(int, Seq<char>), _>(e),
        },
{
    let n = s.unicode_len();
    if pos < n && s.get_char(pos) == '{' {
        nested_bracket_string_val(s, pos)
    } else {
        let (e, v) = plain_string_val(s, pos);
        Ok((e, v))
    }
}

// ---------------------------------------------------------------------------
// Enum-tag values
// ---------------------------------------------------------------------------

/// A transition tag: `fast` or `smooth`.
pub open spec fn spec_transition_val(s: Seq<char>, pos: int) -> Result<
    (int, TransitionType),
    Error,
> {
    if tag_at(s, pos, "fast"@) {
        Ok((pos + "fast"@.len(), TransitionType::Fast))
    } else if tag_at(s, pos, "smooth"@) {
        Ok((pos + "smooth"@.len(), TransitionType::Smooth))
    } else {
        Err(Error::UnrecognizedTag)
    }
}

/// Reads a transition tag.
pub fn transition_val(s: &str, pos: usize) -> (r: Result<(usize, TransitionType), Error>)
    requires
        pos <= s@.len(),
    ensures
        match r {
            Ok((p, v)) => spec_transition_val(s@, pos as int) == Ok::<_, Error>((p as int, v)),
            Err(e) => spec_transition_val(s@, pos as int) == Err::<(int, TransitionType), _>(e),
        },
{
    let _chars = s.unicode_len();
    if match_lit(s, pos, "fast") {
        Ok((pos + "fast".unicode_len(), TransitionType::Fast))
    } else if match_lit(s, pos, "smooth") {
        Ok((pos + "smooth".unicode_len(), TransitionType::Smooth))
    } else {
        Err(Error::UnrecognizedTag)
    }
}

/// A sensor tag: `coffee` or `water`.
pub open spec fn spec_sensor_val(s: Seq<char>, pos: int) -> Result<(int, SensorType), Error> {
    if tag_at(s, pos, "coffee"@) {
        Ok((pos + "coffee"@.len(), SensorType::Coffee))
    } else if tag_at(s, pos, "water"@) {
        Ok((pos + "water"@.len(), SensorType::Water))
    } else {
        Err(Error::UnrecognizedTag)
    }
}

/// Reads a sensor tag.
pub fn sensor_val(s: &str, pos: usize) -> (r: Result<(usize, SensorType), Error>)
    requires
        pos <= s@.len(),
    ensures
        match r {
            Ok((p, v)) => spec_sensor_val(s@, pos as int) == Ok::<_, Error>((p as int, v)),
            Err(e) => spec_sensor_val(s@, pos as int) == Err::<(int, SensorType), _>(e),
        },
{
    let _chars = s.unicode_len();
    if match_lit(s, pos, "coffee") {
        Ok((pos + "coffee".unicode_len(), SensorType::Coffee))
    } else if match_lit(s, pos, "water") {
        Ok((pos + "water".unicode_len(), SensorType::Water))
    } else {
        Err(Error::UnrecognizedTag)
    }
}

/// A pump tag: `flow` or `pressure`.
pub open spec fn spec_pump_val(s: Seq<char>, pos: int) -> Result<(int, PumpType), Error> {
    if tag_at(s, pos, "flow"@) {
        Ok((pos + "flow"@.len(), PumpType::Flow))
    } else if tag_at(s, pos, "pressure"@) {
        Ok((pos + "pressure"@.len(), PumpType::Pressure))
    } else {
        Err(Error::UnrecognizedTag)
    }
}

/// Reads a pump tag.
pub fn pump_val(s: &str, pos: usize) -> (r: Result<(usize, PumpType), Error>)
    requires
        pos <= s@.len(),
    ensures
        match r {
            Ok((p, v)) => spec_pump_val(s@, pos as int) == Ok::<_, Error>((p as int, v)),
            Err(e) => spec_pump_val(s@, pos as int) == Err::<(int, PumpType), _>(e),
        },
{
    let _chars = s.unicode_len();
    if match_lit(s, pos, "flow") {
        Ok((pos + "flow".unicode_len(), PumpType::Flow))
    } else if match_lit(s, pos, "pressure") {
        Ok((pos + "pressure".unicode_len(), PumpType::Pressure))
    } else {
        Err(Error::UnrecognizedTag)
    }
}

/// An exit-type tag, longer tags first.
pub open spec fn spec_exit_type_val(s: Seq<char>, pos: int) -> Result<(int, ExitType), Error> {
    if tag_at(s, pos, "pressure_under"@) {
        Ok((pos + "pressure_under"@.len(), ExitType::PressureUnder))
    } else if tag_at(s, pos, "pressure_over"@) {
        Ok((pos + "pressure_over"@.len(), ExitType::PressureOver))
    } else if tag_at(s, pos, "flow_under"@) {
        Ok((pos + "flow_under"@.len(), ExitType::FlowUnder))
    } else if tag_at(s, pos, "flow_over"@) {
        Ok((pos + "flow_over"@.len(), ExitType::FlowOver))
    } else {
        Err(Error::UnrecognizedTag)
    }
}

/// Reads an exit-type tag.
pub fn exit_type_val(s: &str, pos: usize) -> (r: Result<(usize, ExitType), Error>)
    requires
        pos <= s@.len(),
    ensures
        match r {
            Ok((p, v)) => spec_exit_type_val(s@, pos as int) == Ok::<_, Error>((p as int, v)),
            Err(e) => spec_exit_type_val(s@, pos as int) == Err::<(int, ExitType), _>(e),
        },
{
    let _chars = s.unicode_len();
    if match_lit(s, pos, "pressure_under") {
        Ok((pos + "pressure_under".unicode_len(), ExitType::PressureUnder))
    } else if match_lit(s, pos, "pressure_over") {
        Ok((pos + "pressure_over".unicode_len(), ExitType::PressureOver))
    } else if match_lit(s, pos, "flow_under") {
        Ok((pos + "flow_under".unicode_len(), ExitType::FlowUnder))
    } else if match_lit(s, pos, "flow_over") {
        Ok((pos + "flow_over".unicode_len(), ExitType::FlowOver))
    } else {
        Err(Error::UnrecognizedTag)
    }
}


// ---------------------------------------------------------------------------
// Properties
// ---------------------------------------------------------------------------

/// One named value inside a step.
///
/// The key selects the typed variant; a key outside the closed set falls
/// back to `Unknown(key, value-as-text)`.
#[derive(Clone, Debug, PartialEq)]
pub enum Prop {
    ExitIf(bool),
    Flow(Num),
    Volume(Num),
    MaxFlowOrPressureRange(Num),
    Transition(TransitionType),
    ExitFlowUnder(Num),
    Temperature(Num),
    Name(String),
    Pressure(Num),
    Sensor(SensorType),
    Pump(PumpType),
    ExitType(ExitType),
    ExitFlowOver(Num),
    ExitPressureOver(Num),
    MaxFlowOrPressure(Num),
    ExitPressureUnder(Num),
    Seconds(Num),
    Weight(Num),
    Unknown(String, String),
}

/// The mathematical value of a [`Prop`]: strings as character sequences.
pub enum PropV {
    ExitIf(bool),
    Flow(Num),
    Volume(Num),
    MaxFlowOrPressureRange(Num),
    Transition(TransitionType),
    ExitFlowUnder(Num),
    Temperature(Num),
    Name(Seq<char>),
    Pressure(Num),
    Sensor(SensorType),
    Pump(PumpType),
    ExitType(ExitType),
    ExitFlowOver(Num),
    ExitPressureOver(Num),
    MaxFlowOrPressure(Num),
    ExitPressureUnder(Num),
    Seconds(Num),
    Weight(Num),
    Unknown(Seq<char>, Seq<char>),
}

impl View for Prop {
    type V = PropV;

    open spec fn view(&self) -> PropV {
        match self {
            Prop::ExitIf(v) => PropV::ExitIf(*v),
            Prop::Flow(v) => PropV::Flow(*v),
            Prop::Volume(v) => PropV::Volume(*v),
            Prop::MaxFlowOrPressureRange(v) => PropV::MaxFlowOrPressureRange(*v),
            Prop::Transition(v) => PropV::Transition(*v),
            Prop::ExitFlowUnder(v) => PropV::ExitFlowUnder(*v),
            Prop::Temperature(v) => PropV::Temperature(*v),
            Prop::Name(v) => PropV::Name(v@),
            Prop::Pressure(v) => PropV::Pressure(*v),
            Prop::Sensor(v) => PropV::Sensor(*v),
            Prop::Pump(v) => PropV::Pump(*v),
            Prop::ExitType(v) => PropV::ExitType(*v),
            Prop::ExitFlowOver(v) => PropV::ExitFlowOver(*v),
            Prop::ExitPressureOver(v) => PropV::ExitPressureOver(*v),
            Prop::MaxFlowOrPressure(v) => PropV::MaxFlowOrPressure(*v),
            Prop::ExitPressureUnder(v) => PropV::ExitPressureUnder(*v),
            Prop::Seconds(v) => PropV::Seconds(*v),
            Prop::Weight(v) => PropV::Weight(*v),
            Prop::Unknown(k, v) => PropV::Unknown(k@, v@),
        }
    }
}

/// A property: a key token, at least one space or tab, then the value the
/// key expects; an unrecognized key takes any string value and becomes
/// `Unknown`.
pub open spec fn spec_prop(s: Seq<char>, pos: int) -> Result<(int, PropV), Error> {
    let k = run_len(s, pos, CharClass::Token) as int;
    let key = s.subrange(pos, pos + k);
    let p = pos + k;
    let w = run_len(s, p, CharClass::Space) as int;
    let q = p + w;
    if k == 0 || w == 0 {
        Err(Error::MalformedValue)
    } else {
    if key == "exit_if"@ {
        match spec_bool_val(s, q) {
            Ok((p2, v)) => Ok((p2, PropV::ExitIf(v))),
            Err(e) => Err(e),
        }
    } else if key == "flow"@ {
        match spec_number_val(s, q) {
            Ok((p2, v)) => Ok((p2, PropV::Flow(v))),
            Err(e) => Err(e),
        }
    } else if key == "volume"@ {
        match spec_number_val(s, q) {
            Ok((p2, v)) => Ok((p2, PropV::Volume(v))),
            Err(e) => Err(e),
        }
    } else if key == "max_flow_or_pressure_range"@ {
        match spec_number_val(s, q) {
            Ok((p2, v)) => Ok((p2, PropV::MaxFlowOrPressureRange(v))),
            Err(e) => Err(e),
        }
    } else if key == "transition"@ {
        match spec_transition_val(s, q) {
            Ok((p2, v)) => Ok((p2, PropV::Transition(v))),
            Err(e) => Err(e),
        }
    } else if key == "exit_flow_under"@ {
        match spec_number_val(s, q) {
            Ok((p2, v)) => Ok((p2, PropV::ExitFlowUnder(v))),
            Err(e) => Err(e),
        }
    } else if key == "temperature"@ {
        match spec_number_val(s, q) {
            Ok((p2, v)) => Ok((p2, PropV::Temperature(v))),
            Err(e) => Err(e),
        }
    } else if key == "name"@ {
        match spec_string_val(s, q) {
            Ok((p2, v)) => Ok((p2, PropV::Name(v))),
            Err(e) => Err(e),
        }
    } else if key == "pressure"@ {
        match spec_number_val(s, q) {
            Ok((p2, v)) => Ok((p2, PropV::Pressure(v))),
            Err(e) => Err(e),
        }
    } else if key == "sensor"@ {
        match spec_sensor_val(s, q) {
            Ok((p2, v)) => Ok((p2, PropV::Sensor(v))),
            Err(e) => Err(e),
        }
    } else if key == "pump"@ {
        match spec_pump_val(s, q) {
            Ok((p2, v)) => Ok((p2, PropV::Pump(v))),
            Err(e) => Err(e),
        }
    } else if key == "exit_type"@ {
        match spec_exit_type_val(s, q) {
            Ok((p2, v)) => Ok((p2, PropV::ExitType(v))),
            Err(e) => Err(e),
        }
    } else if key == "exit_flow_over"@ {
        match spec_number_val(s, q) {
            Ok((p2, v)) => Ok((p2, PropV::ExitFlowOver(v))),
            Err(e) => Err(e),
        }
    } else if key == "exit_pressure_over"@ {
        match spec_number_val(s, q) {
            Ok((p2, v)) => Ok((p2, PropV::ExitPressureOver(v))),
            Err(e) => Err(e),
        }
    } else if key == "max_flow_or_pressure"@ {
        match spec_number_val(s, q) {
            Ok((p2, v)) => Ok((p2, PropV::MaxFlowOrPressure(v))),
            Err(e) => Err(e),
        }
    } else if key == "exit_pressure_under"@ {
        match spec_number_val(s, q) {
            Ok((p2, v)) => Ok((p2, PropV::ExitPressureUnder(v))),
            Err(e) => Err(e),
        }
    } else if key == "seconds"@ {
        match spec_number_val(s, q) {
            Ok((p2, v)) => Ok((p2, PropV::Seconds(v))),
            Err(e) => Err(e),
        }
    } else if key == "weight"@ {
        match spec_number_val(s, q) {
            Ok((p2, v)) => Ok((p2, PropV::Weight(v))),
            Err(e) => Err(e),
        }
    } else {
        match spec_string_val(s, q) {
            Ok((p2, v)) => Ok((p2, PropV::Unknown(key, v))),
            Err(e) => Err(e),
        }
    }
    }
}

/// Reads one property.
pub fn prop(s: &str, pos: usize) -> (r: Result<(usize, Prop), Error>)
    requires
        pos <= s@.len(),
    ensures
        match r {
            Ok((p, v)) => spec_prop(s@, pos as int) == Ok::<_, Error>((p as int, v@)),
            Err(e) => spec_prop(s@, pos as int) == Err::<(int, PropV), _>(e),
        },
{
    proof {
        lemma_run_len_bound(s@, pos as int, CharClass::Token);
    }
    let ke = scan_run(s, pos, CharClass::Token);
    if ke == pos {
        return Err(Error::MalformedValue);
    }
    let key = s.substring_char(pos, ke);
    proof {
        lemma_run_len_bound(s@, ke as int, CharClass::Space);
    }
    let q = scan_run(s, ke, CharClass::Space);
    if q == ke {
        return Err(Error::MalformedValue);
    }
    if crate::scan::str_eq(key, "exit_if") {
        match bool_val(s, q) {
            Ok((p2, v)) => Ok((p2, Prop::ExitIf(v))),
            Err(e) => Err(e),
        }
    } else if crate::scan::str_eq(key, "flow") {
        match number_val(s, q) {
            Ok((p2, v)) => Ok((p2, Prop::Flow(v))),
            Err(e) => Err(e),
        }
    } else if crate::scan::str_eq(key, "volume") {
        match number_val(s, q) {
            Ok((p2, v)) => Ok((p2, Prop::Volume(v))),
            Err(e) => Err(e),
        }
    } else if crate::scan::str_eq(key, "max_flow_or_pressure_range") {
        match number_val(s, q) {
            Ok((p2, v)) => Ok((p2, Prop::MaxFlowOrPressureRange(v))),
            Err(e) => Err(e),
        }
    } else if crate::scan::str_eq(key, "transition") {
        match transition_val(s, q) {
            Ok((p2, v)) => Ok((p2, Prop::Transition(v))),
            Err(e) => Err(e),
        }
    } else if crate::scan::str_eq(key, "exit_flow_under") {
        match number_val(s, q) {
            Ok((p2, v)) => Ok((p2, Prop::ExitFlowUnder(v))),
            Err(e) => Err(e),
        }
    } else if crate::scan::str_eq(key, "temperature") {
        match number_val(s, q) {
            Ok((p2, v)) => Ok((p2, Prop::Temperature(v))),
            Err(e) => Err(e),
        }
    } else if crate::scan::str_eq(key, "name") {
        match string_val(s, q) {
            Ok((p2, v)) => Ok((p2, Prop::Name(v))),
            Err(e) => Err(e),
        }
    } else if crate::scan::str_eq(key, "pressure") {
        match number_val(s, q) {
            Ok((p2, v)) => Ok((p2, Prop::Pressure(v))),
            Err(e) => Err(e),
        }
    } else if crate::scan::str_eq(key, "sensor") {
        match sensor_val(s, q) {
            Ok((p2, v)) => Ok((p2, Prop::Sensor(v))),
            Err(e) => Err(e),
        }
    } else if crate::scan::str_eq(key, "pump") {
        match pump_val(s, q) {
            Ok((p2, v)) => Ok((p2, Prop::Pump(v))),
            Err(e) => Err(e),
        }
    } else if crate::scan::str_eq(key, "exit_type") {
        match exit_type_val(s, q) {
            Ok((p2, v)) => Ok((p2, Prop::ExitType(v))),
            Err(e) => Err(e),
        }
    } else if crate::scan::str_eq(key, "exit_flow_over") {
        match number_val(s, q) {
            Ok((p2, v)) => Ok((p2, Prop::ExitFlowOver(v))),
            Err(e) => Err(e),
        }
    } else if crate::scan::str_eq(key, "exit_pressure_over") {
        match number_val(s, q) {
            Ok((p2, v)) => Ok((p2, Prop::ExitPressureOver(v))),
            Err(e) => Err(e),
        }
    } else if crate::scan::str_eq(key, "max_flow_or_pressure") {
        match number_val(s, q) {
            Ok((p2, v)) => Ok((p2, Prop::MaxFlowOrPressure(v))),
            Err(e) => Err(e),
        }
    } else if crate::scan::str_eq(key, "exit_pressure_under") {
        match number_val(s, q) {
            Ok((p2, v)) => Ok((p2, Prop::ExitPressureUnder(v))),
            Err(e) => Err(e),
        }
    } else if crate::scan::str_eq(key, "seconds") {
        match number_val(s, q) {
            Ok((p2, v)) => Ok((p2, Prop::Seconds(v))),
            Err(e) => Err(e),
        }
    } else if crate::scan::str_eq(key, "weight") {
        match number_val(s, q) {
            Ok((p2, v)) => Ok((p2, Prop::Weight(v))),
            Err(e) => Err(e),
        }
    } else {
        match string_val(s, q) {
            Ok((p2, v)) => Ok((p2, Prop::Unknown(key.to_owned(), v))),
            Err(e) => Err(e),
        }
    }
}


/// A failed conversion never arises: any transition becomes its property.
impl Prop {
    /// Wraps a transition as a property.
    pub fn try_from(value: TransitionType) -> (r: Result<Prop, ConvertError>)
        ensures
            r matches Ok(p) && p == (Prop::Transition(value)),
    {
        Ok(Prop::Transition(value))
    }
}

/// A string property under a fixed key literal: the literal `name`
/// followed by a string becomes `Name`; any other literal keeps its key
/// and becomes `Unknown`.
pub open spec fn spec_prop_string(s: Seq<char>, pos: int, name: Seq<char>) -> Result<
    (int, PropV),
    Error,
> {
    if !tag_at(s, pos, name) {
        Err(Error::MalformedValue)
    } else {
        let p = pos + name.len();
        let w = run_len(s, p, CharClass::Space) as int;
        if w == 0 {
            Err(Error::MalformedValue)
        } else {
            match spec_string_val(s, p + w) {
                Ok((p2, v)) => if name == "name"@ {
                    Ok((p2, PropV::Name(v)))
                } else {
                    Ok((p2, PropV::Unknown(name, v)))
                },
                Err(e) => Err(e),
            }
        }
    }
}

/// Reads a string property under the given key literal.
pub fn prop_string(name: &str, s: &str, pos: usize) -> (r: Result<(usize, Prop), Error>)
    requires
        pos <= s@.len(),
    ensures
        match r {
            Ok((p, v)) => spec_prop_string(s@, pos as int, name@) == Ok::<_, Error>((
                p as int,
                v@,
            )),
            Err(e) => spec_prop_string(s@, pos as int, name@) == Err::<(int, PropV), _>(e),
        },
{
    let _chars = s.unicode_len();
    if !match_lit(s, pos, name) {
        return Err(Error::MalformedValue);
    }
    let p = pos + name.unicode_len();
    proof {
        lemma_run_len_bound(s@, p as int, CharClass::Space);
    }
    let q = scan_run(s, p, CharClass::Space);
    if q == p {
        return Err(Error::MalformedValue);
    }
    match string_val(s, q) {
        Ok((p2, v)) => {
            if crate::scan::str_eq(name, "name") {
                Ok((p2, Prop::Name(v)))
            } else {
                Ok((p2, Prop::Unknown(name.to_owned(), v)))
            }
        },
        Err(e) => Err(e),
    }
}

// ---------------------------------------------------------------------------
// Bounds of the value parsers, and parser progress
// ---------------------------------------------------------------------------

pub proof fn lemma_number_val_bounds(s: Seq<char>, q: int)
    requires
        0 <= q <= s.len(),
    ensures
        spec_number_val(s, q) matches Ok(pv) ==> q < pv.0 <= s.len(),
{
    lemma_run_len_bound(s, q, CharClass::Digit);
    if q < s.len() {
        let d1 = digit_run(s, q);
        if d1 > 0 && q + d1 < s.len() && s[q + d1] == '.' {
            lemma_run_len_bound(s, q + d1 + 1, CharClass::Digit);
        }
        if d1 == 0 && s[q] == '.' {
            lemma_run_len_bound(s, q + 1, CharClass::Digit);
        }
    }
}

pub proof fn lemma_string_val_bounds(s: Seq<char>, q: int)
    requires
        0 <= q <= s.len(),
    ensures
        spec_string_val(s, q) matches Ok(pv) ==> q <= pv.0 <= s.len(),
{
    lemma_run_len_bound(s, q, CharClass::Plain);
    if q < s.len() && s[q] == '{' {
        lemma_brace_close_bounds(s, q + 1, 0);
    }
}

/// A successful property read always advances, and never past the end.
pub proof fn lemma_prop_progress(s: Seq<char>, pos: int)
    requires
        0 <= pos <= s.len(),
    ensures
        spec_prop(s, pos) matches Ok(pv) ==> pos < pv.0 <= s.len(),
{
    lemma_run_len_bound(s, pos, CharClass::Token);
    let k = run_len(s, pos, CharClass::Token) as int;
    let key = s.subrange(pos, pos + k);
    let p = pos + k;
    lemma_run_len_bound(s, p, CharClass::Space);
    let w = run_len(s, p, CharClass::Space) as int;
    let q = p + w;
    if k == 0 || w == 0 {
        return ;
    }
    if key == "exit_if"@ {
        // tag and bool bounds follow from the definitions
    } else if key == "flow"@ {
        lemma_number_val_bounds(s, q);
    } else if key == "volume"@ {
        lemma_number_val_bounds(s, q);
    } else if key == "max_flow_or_pressure_range"@ {
        lemma_number_val_bounds(s, q);
    } else if key == "transition"@ {
        // tag and bool bounds follow from the definitions
    } else if key == "exit_flow_under"@ {
        lemma_number_val_bounds(s, q);
    } else if key == "temperature"@ {
        lemma_number_val_bounds(s, q);
    } else if key == "name"@ {
        lemma_string_val_bounds(s, q);
    } else if key == "pressure"@ {
        lemma_number_val_bounds(s, q);
    } else if key == "sensor"@ {
        // tag and bool bounds follow from the definitions
    } else if key == "pump"@ {
        // tag and bool bounds follow from the definitions
    } else if key == "exit_type"@ {
        // tag and bool bounds follow from the definitions
    } else if key == "exit_flow_over"@ {
        lemma_number_val_bounds(s, q);
    } else if key == "exit_pressure_over"@ {
        lemma_number_val_bounds(s, q);
    } else if key == "max_flow_or_pressure"@ {
        lemma_number_val_bounds(s, q);
    } else if key == "exit_pressure_under"@ {
        lemma_number_val_bounds(s, q);
    } else if key == "seconds"@ {
        lemma_number_val_bounds(s, q);
    } else if key == "weight"@ {
        lemma_number_val_bounds(s, q);
    } else {
        lemma_string_val_bounds(s, q);
    }
}

// ---------------------------------------------------------------------------
// Property lists, steps, step lists
// ---------------------------------------------------------------------------

/// The views of a list of properties.
pub open spec fn props_view(v: Seq<Prop>) -> Seq<PropV> {
    v.map_values(|p: Prop| p@)
}

/// Properties after the first: each needs at least one separating
/// whitespace character; the list stops before whatever fails to parse.
pub open spec fn spec_props_more(s: Seq<char>, p: int) -> (int, Seq<PropV>)
    decreases s.len() - p when 0 <= p <= s.len()
{
    let w = run_len(s, p, CharClass::Multispace) as int;
    if w == 0 {
        (p, Seq::empty())
    } else {
        match spec_prop(s, p + w) {
            Err(_) => (p, Seq::empty()),
            Ok((p2, v)) => if p + w < p2 <= s.len() {
                let rest = spec_props_more(s, p2);
                (rest.0, seq![v] + rest.1)
            } else {
                (p, Seq::empty())
            },
        }
    }
}

/// A whitespace-separated property list, possibly empty.
pub open spec fn spec_props(s: Seq<char>, pos: int) -> (int, Seq<PropV>) {
    match spec_prop(s, pos) {
        Err(_) => (pos, Seq::empty()),
        Ok((p, v)) => if pos < p <= s.len() {
            let rest = spec_props_more(s, p);
            (rest.0, seq![v] + rest.1)
        } else {
            (pos, Seq::empty())
        },
    }
}

pub proof fn lemma_props_more_bounds(s: Seq<char>, p: int)
    requires
        0 <= p <= s.len(),
    ensures
        p <= spec_props_more(s, p).0 <= s.len(),
    decreases s.len() - p,
{
    let w = run_len(s, p, CharClass::Multispace) as int;
    if w != 0 {
        if let Ok((p2, v)) = spec_prop(s, p + w) {
            if p + w < p2 <= s.len() {
                lemma_props_more_bounds(s, p2);
            }
        }
    }
}

pub proof fn lemma_props_bounds(s: Seq<char>, pos: int)
    requires
        0 <= pos <= s.len(),
    ensures
        pos <= spec_props(s, pos).0 <= s.len(),
{
    if let Ok((p, v)) = spec_prop(s, pos) {
        if pos < p <= s.len() {
            lemma_props_more_bounds(s, p);
        }
    }
}

/// Reads a whitespace-separated property list; stops before whatever fails
/// to parse.
pub fn props(s: &str, pos: usize) -> (r: (usize, Vec<Prop>))
    requires
        pos <= s@.len(),
    ensures
        r.0 == spec_props(s@, pos as int).0,
        props_view(r.1@) == spec_props(s@, pos as int).1,
{
    let ghost target = spec_props(s@, pos as int);
    let mut out: Vec<Prop> = Vec::new();
    let mut cur: usize;
    match prop(s, pos) {
        Err(_) => {
            proof {
                assert(props_view(out@) =~= target.1);
            }
            return (pos, out);
        },
        Ok((p, v)) => {
            proof {
                lemma_prop_progress(s@, pos as int);
            }
            out.push(v);
            cur = p;
            proof {
                assert(props_view(out@) =~= seq![v@]);
            }
        },
    }
    loop
        invariant
            pos <= cur <= s@.len(),
            target == spec_props(s@, pos as int),
            target.0 == spec_props_more(s@, cur as int).0,
            target.1 == props_view(out@) + spec_props_more(s@, cur as int).1,
        decreases s@.len() - cur,
    {
        proof {
            lemma_run_len_bound(s@, cur as int, CharClass::Multispace);
        }
        let we = scan_run(s, cur, CharClass::Multispace);
        if we == cur {
            proof {
                assert(target.1 =~= props_view(out@));
            }
            return (cur, out);
        }
        match prop(s, we) {
            Err(_) => {
                proof {
                    assert(target.1 =~= props_view(out@));
                }
                return (cur, out);
            },
            Ok((p2, v)) => {
                proof {
                    lemma_prop_progress(s@, we as int);
                }
                let ghost old_out = out@;
                out.push(v);
                cur = p2;
                proof {
                    assert(props_view(old_out.push(v)) =~= props_view(old_out).push(v@));
                    assert(target.1 =~= props_view(out@) + spec_props_more(s@, cur as int).1);
                }
            },
        }
    }
}

/// An ordered list of properties: one timed phase of a shot.
#[derive(Clone, Debug, PartialEq)]
pub struct Step(pub Vec<Prop>);

impl View for Step {
    type V = Seq<PropV>;

    open spec fn view(&self) -> Seq<PropV> {
        props_view(self.0@)
    }
}

/// A step: a braced property list, whitespace allowed inside the braces.
pub open spec fn spec_step(s: Seq<char>, pos: int) -> Result<(int, Seq<PropV>), Error> {
    if !(0 <= pos < s.len() && s[pos] == '{') {
        Err(Error::MalformedValue)
    } else {
        let w0 = run_len(s, pos + 1, CharClass::Multispace) as int;
        let pr = spec_props(s, pos + 1 + w0);
        let w1 = run_len(s, pr.0, CharClass::Multispace) as int;
        if pr.0 + w1 < s.len() && s[pr.0 + w1] == '}' {
            Ok((pr.0 + w1 + 1, pr.1))
        } else {
            Err(Error::MalformedValue)
        }
    }
}

/// A successful step read always advances, and never past the end.
pub proof fn lemma_step_progress(s: Seq<char>, pos: int)
    requires
        0 <= pos <= s.len(),
    ensures
        spec_step(s, pos) matches Ok(pv) ==> pos < pv.0 <= s.len(),
{
    if 0 <= pos < s.len() && s[pos] == '{' {
        lemma_run_len_bound(s, pos + 1, CharClass::Multispace);
        let w0 = run_len(s, pos + 1, CharClass::Multispace) as int;
        lemma_props_bounds(s, pos + 1 + w0);
    }
}

/// Reads one step.
pub fn step(s: &str, pos: usize) -> (r: Result<(usize, Step), Error>)
    requires
        pos <= s@.len(),
    ensures
        match r {
            Ok((p, st)) => spec_step(s@, pos as int) == Ok::<_, Error>((p as int, st@)),
            Err(e) => spec_step(s@, pos as int) == Err::<(int, Seq<PropV>), _>(e),
        },
{
    let n = s.unicode_len();
    if pos >= n || s.get_char(pos) != '{' {
        return Err(Error::MalformedValue);
    }
    proof {
        lemma_run_len_bound(s@, pos + 1, CharClass::Multispace);
    }
    let m0 = scan_run(s, pos + 1, CharClass::Multispace);
    proof {
        lemma_props_bounds(s@, m0 as int);
    }
    let (p1, ps) = props(s, m0);
    proof {
        lemma_run_len_bound(s@, p1 as int, CharClass::Multispace);
    }
    let m1 = scan_run(s, p1, CharClass::Multispace);
    if m1 < n && s.get_char(m1) == '}' {
        Ok((m1 + 1, Step(ps)))
    } else {
        Err(Error::MalformedValue)
    }
}

/// The views of a list of steps.
pub open spec fn steps_view(v: Seq<Step>) -> Seq<Seq<PropV>> {
    v.map_values(|st: Step| st@)
}

/// Steps after the first, separated by optional whitespace.
pub open spec fn spec_steps_more(s: Seq<char>, p: int) -> (int, Seq<Seq<PropV>>)
    decreases s.len() - p when 0 <= p <= s.len()
{
    let w = run_len(s, p, CharClass::Multispace) as int;
    match spec_step(s, p + w) {
        Err(_) => (p, Seq::empty()),
        Ok((p2, st)) => if p < p2 <= s.len() {
            let rest = spec_steps_more(s, p2);
            (rest.0, seq![st] + rest.1)
        } else {
            (p, Seq::empty())
        },
    }
}

/// A step list, possibly empty; stops before whatever fails to parse.
pub open spec fn spec_steps(s: Seq<char>, pos: int) -> (int, Seq<Seq<PropV>>) {
    match spec_step(s, pos) {
        Err(_) => (pos, Seq::empty()),
        Ok((p, st)) => if pos < p <= s.len() {
            let rest = spec_steps_more(s, p);
            (rest.0, seq![st] + rest.1)
        } else {
            (pos, Seq::empty())
        },
    }
}

pub proof fn lemma_steps_more_bounds(s: Seq<char>, p: int)
    requires
        0 <= p <= s.len(),
    ensures
        p <= spec_steps_more(s, p).0 <= s.len(),
    decreases s.len() - p,
{
    let w = run_len(s, p, CharClass::Multispace) as int;
    if let Ok((p2, st)) = spec_step(s, p + w) {
        if p < p2 <= s.len() {
            lemma_steps_more_bounds(s, p2);
        }
    }
}

pub proof fn lemma_steps_bounds(s: Seq<char>, pos: int)
    requires
        0 <= pos <= s.len(),
    ensures
        pos <= spec_steps(s, pos).0 <= s.len(),
{
    if let Ok((p, st)) = spec_step(s, pos) {
        if pos < p <= s.len() {
            lemma_steps_more_bounds(s, p);
        }
    }
}

/// Reads a whitespace-separated step list; stops before whatever fails to
/// parse.
pub fn steps(s: &str, pos: usize) -> (r: (usize, Vec<Step>))
    requires
        pos <= s@.len(),
    ensures
        r.0 == spec_steps(s@, pos as int).0,
        steps_view(r.1@) == spec_steps(s@, pos as int).1,
{
    let ghost target = spec_steps(s@, pos as int);
    let mut out: Vec<Step> = Vec::new();
    let mut cur: usize;
    match step(s, pos) {
        Err(_) => {
            proof {
                assert(steps_view(out@) =~= target.1);
            }
            return (pos, out);
        },
        Ok((p, st)) => {
            proof {
                lemma_step_progress(s@, pos as int);
            }
            out.push(st);
            cur = p;
            proof {
                assert(steps_view(out@) =~= seq![out@[0]@]);
            }
        },
    }
    loop
        invariant
            pos <= cur <= s@.len(),
            target == spec_steps(s@, pos as int),
            target.0 == spec_steps_more(s@, cur as int).0,
            target.1 == steps_view(out@) + spec_steps_more(s@, cur as int).1,
        decreases s@.len() - cur,
    {
        proof {
            lemma_run_len_bound(s@, cur as int, CharClass::Multispace);
        }
        let we = scan_run(s, cur, CharClass::Multispace);
        match step(s, we) {
            Err(_) => {
                proof {
                    assert(target.1 =~= steps_view(out@));
                }
                return (cur, out);
            },
            Ok((p2, st)) => {
                proof {
                    lemma_step_progress(s@, we as int);
                }
                let ghost old_out = out@;
                out.push(st);
                cur = p2;
                proof {
                    assert(steps_view(old_out.push(st)) =~= steps_view(old_out).push(st@));
                    assert(target.1 =~= steps_view(out@) + spec_steps_more(s@, cur as int).1);
                }
            },
        }
    }
}

// ---------------------------------------------------------------------------
// Step lookups
// ---------------------------------------------------------------------------

/// Whether a property answers to the given key; an unknown property answers
/// to no key.
pub open spec fn prop_matches_name(p: PropV, name: Seq<char>) -> bool {
    match p {
        PropV::ExitIf(_) => name == "exit_if"@,
        PropV::Flow(_) => name == "flow"@,
        PropV::Volume(_) => name == "volume"@,
        PropV::MaxFlowOrPressureRange(_) => name == "max_flow_or_pressure_range"@,
        PropV::Transition(_) => name == "transition"@,
        PropV::ExitFlowUnder(_) => name == "exit_flow_under"@,
        PropV::Temperature(_) => name == "temperature"@,
        PropV::Name(_) => name == "name"@,
        PropV::Pressure(_) => name == "pressure"@,
        PropV::Sensor(_) => name == "sensor"@,
        PropV::Pump(_) => name == "pump"@,
        PropV::ExitType(_) => name == "exit_type"@,
        PropV::ExitFlowOver(_) => name == "exit_flow_over"@,
        PropV::ExitPressureOver(_) => name == "exit_pressure_over"@,
        PropV::MaxFlowOrPressure(_) => name == "max_flow_or_pressure"@,
        PropV::ExitPressureUnder(_) => name == "exit_pressure_under"@,
        PropV::Seconds(_) => name == "seconds"@,
        PropV::Weight(_) => name == "weight"@,
        PropV::Unknown(_, _) => false,
    }
}

/// The first property at or after `i` answering to `name`.
pub open spec fn spec_get_from(props: Seq<PropV>, name: Seq<char>, i: int) -> Option<PropV>
    decreases props.len() - i when 0 <= i <= props.len()
{
    if i < 0 || i >= props.len() {
        None
    } else if prop_matches_name(props[i], name) {
        Some(props[i])
    } else {
        spec_get_from(props, name, i + 1)
    }
}

/// The first property answering to `name`: lookups resolve to the first
/// occurrence, never a later one.
pub open spec fn spec_step_get(props: Seq<PropV>, name: Seq<char>) -> Option<PropV> {
    spec_get_from(props, name, 0)
}

/// Whether this property answers to the given key.
fn prop_matches(p: &Prop, prop_name: &str) -> (r: bool)
    ensures
        r == prop_matches_name(p@, prop_name@),
{
    match p {
        Prop::ExitIf(_) => crate::scan::str_eq(prop_name, "exit_if"),
        Prop::Flow(_) => crate::scan::str_eq(prop_name, "flow"),
        Prop::Volume(_) => crate::scan::str_eq(prop_name, "volume"),
        Prop::MaxFlowOrPressureRange(_) => crate::scan::str_eq(prop_name, "max_flow_or_pressure_range"),
        Prop::Transition(_) => crate::scan::str_eq(prop_name, "transition"),
        Prop::ExitFlowUnder(_) => crate::scan::str_eq(prop_name, "exit_flow_under"),
        Prop::Temperature(_) => crate::scan::str_eq(prop_name, "temperature"),
        Prop::Name(_) => crate::scan::str_eq(prop_name, "name"),
        Prop::Pressure(_) => crate::scan::str_eq(prop_name, "pressure"),
        Prop::Sensor(_) => crate::scan::str_eq(prop_name, "sensor"),
        Prop::Pump(_) => crate::scan::str_eq(prop_name, "pump"),
        Prop::ExitType(_) => crate::scan::str_eq(prop_name, "exit_type"),
        Prop::ExitFlowOver(_) => crate::scan::str_eq(prop_name, "exit_flow_over"),
        Prop::ExitPressureOver(_) => crate::scan::str_eq(prop_name, "exit_pressure_over"),
        Prop::MaxFlowOrPressure(_) => crate::scan::str_eq(prop_name, "max_flow_or_pressure"),
        Prop::ExitPressureUnder(_) => crate::scan::str_eq(prop_name, "exit_pressure_under"),
        Prop::Seconds(_) => crate::scan::str_eq(prop_name, "seconds"),
        Prop::Weight(_) => crate::scan::str_eq(prop_name, "weight"),
        Prop::Unknown(_, _) => false,
    }
}

/// The first property with a `Seconds` value at or after `i`.
pub open spec fn spec_seconds_from(props: Seq<PropV>, i: int) -> Option<Num>
    decreases props.len() - i when 0 <= i <= props.len()
{
    if i < 0 || i >= props.len() {
        None
    } else if props[i] is Seconds {
        Some(props[i]->Seconds_0)
    } else {
        spec_seconds_from(props, i + 1)
    }
}

/// The step's duration: its first `Seconds` property.
pub open spec fn spec_step_seconds(props: Seq<PropV>) -> Option<Num> {
    spec_seconds_from(props, 0)
}

/// The first property with a `Pump` value at or after `i`.
pub open spec fn spec_pump_from(props: Seq<PropV>, i: int) -> Option<PumpType>
    decreases props.len() - i when 0 <= i <= props.len()
{
    if i < 0 || i >= props.len() {
        None
    } else if props[i] is Pump {
        Some(props[i]->Pump_0)
    } else {
        spec_pump_from(props, i + 1)
    }
}

/// The step's pump: its first `Pump` property.
pub open spec fn spec_step_pump(props: Seq<PropV>) -> Option<PumpType> {
    spec_pump_from(props, 0)
}

/// The first property with a `Transition` value at or after `i`.
pub open spec fn spec_transition_from(props: Seq<PropV>, i: int) -> Option<TransitionType>
    decreases props.len() - i when 0 <= i <= props.len()
{
    if i < 0 || i >= props.len() {
        None
    } else if props[i] is Transition {
        Some(props[i]->Transition_0)
    } else {
        spec_transition_from(props, i + 1)
    }
}

/// The step's transition: its first `Transition` property.
pub open spec fn spec_step_transition(props: Seq<PropV>) -> Option<TransitionType> {
    spec_transition_from(props, 0)
}

/// The flow threshold of a flow-kind early exit, if the step has one.
///
/// Meaningful only when the step exits early (`ExitIf` true) on a flow
/// condition; the matching threshold property supplies the value.  Pressure
/// exits yield nothing.
pub open spec fn spec_step_exit_flow(props: Seq<PropV>) -> Option<Num> {
    match (spec_step_get(props, "exit_if"@), spec_step_get(props, "exit_type"@)) {
        (Some(PropV::ExitIf(true)), Some(PropV::ExitType(ExitType::FlowOver))) => match 
        spec_step_get(props, "exit_flow_over"@) {
            Some(PropV::ExitFlowOver(v)) => Some(v),
            _ => None,
        },
        (Some(PropV::ExitIf(true)), Some(PropV::ExitType(ExitType::FlowUnder))) => match 
        spec_step_get(props, "exit_flow_under"@) {
            Some(PropV::ExitFlowUnder(v)) => Some(v),
            _ => None,
        },
        _ => None,
    }
}

impl Step {
    /// The first property answering to `prop_name`, if any.
    pub fn get(&self, prop_name: &str) -> (r: Option<&Prop>)
        ensures
            match r {
                Some(p) => spec_step_get(self@, prop_name@) == Some(p@),
                None => spec_step_get(self@, prop_name@) is None,
            },
    {
        let mut i: usize = 0;
        let n = self.0.len();
        while i < n
            invariant
                0 <= i <= n == self.0.len(),
                spec_step_get(self@, prop_name@) == spec_get_from(self@, prop_name@, i as int),
            decreases n - i,
        {
            if prop_matches(&self.0[i], prop_name) {
                return Some(&self.0[i]);
            }
            i = i + 1;
        }
        None
    }

    /// The step's duration; missing it is a required-value failure.
    pub fn seconds(&self) -> (r: Result<Num, Error>)
        ensures
            match spec_step_seconds(self@) {
                Some(v) => r == Ok::<_, Error>(v),
                None => r == Err::<Num, _>(Error::MissingRequiredProp),
            },
    {
        let mut i: usize = 0;
        let n = self.0.len();
        while i < n
            invariant
                0 <= i <= n == self.0.len(),
                spec_step_seconds(self@) == spec_seconds_from(self@, i as int),
            decreases n - i,
        {
            match &self.0[i] {
                Prop::Seconds(v) => {
                    return Ok(*v);
                },
                _ => {
                },
            }
            i = i + 1;
        }
        Err(Error::MissingRequiredProp)
    }

    /// The step's pump; missing it is a required-value failure.
    pub fn pump(&self) -> (r: Result<PumpType, Error>)
        ensures
            match spec_step_pump(self@) {
                Some(v) => r == Ok::<_, Error>(v),
                None => r == Err::<PumpType, _>(Error::MissingRequiredProp),
            },
    {
        let mut i: usize = 0;
        let n = self.0.len();
        while i < n
            invariant
                0 <= i <= n == self.0.len(),
                spec_step_pump(self@) == spec_pump_from(self@, i as int),
            decreases n - i,
        {
            match &self.0[i] {
                Prop::Pump(v) => {
                    return Ok(*v);
                },
                _ => {
                },
            }
            i = i + 1;
        }
        Err(Error::MissingRequiredProp)
    }

    /// The step's transition; missing it is a required-value failure.
    pub fn transition(&self) -> (r: Result<TransitionType, Error>)
        ensures
            match spec_step_transition(self@) {
                Some(v) => r == Ok::<_, Error>(v),
                None => r == Err::<TransitionType, _>(Error::MissingRequiredProp),
            },
    {
        let mut i: usize = 0;
        let n = self.0.len();
        while i < n
            invariant
                0 <= i <= n == self.0.len(),
                spec_step_transition(self@) == spec_transition_from(self@, i as int),
            decreases n - i,
        {
            match &self.0[i] {
                Prop::Transition(v) => {
                    return Ok(*v);
                },
                _ => {
                },
            }
            i = i + 1;
        }
        Err(Error::MissingRequiredProp)
    }

    /// The flow threshold of a flow-kind early exit, if the step has one.
    pub fn exit_flow(&self) -> (r: Option<Num>)
        ensures
            r == spec_step_exit_flow(self@),
    {
        match (self.get("exit_if"), self.get("exit_type")) {
            (Some(Prop::ExitIf(true)), Some(Prop::ExitType(ExitType::FlowOver))) => match self.get(
                "exit_flow_over",
            ) {
                Some(Prop::ExitFlowOver(v)) => Some(*v),
                _ => None,
            },
            (Some(Prop::ExitIf(true)), Some(Prop::ExitType(ExitType::FlowUnder))) => match self
                .get("exit_flow_under") {
                Some(Prop::ExitFlowUnder(v)) => Some(*v),
                _ => None,
            },
            _ => None,
        }
    }
}


/// Law: a dotted numeral round-trips exactly.
///
/// For every valid form `D.`, `D.D` or `.D` whose digits fit the exact
/// range, the parsed number is precisely the integer digits shifted past
/// the fraction digits, over ten to the fraction length: no other value
/// satisfies the number reader.
pub proof fn lemma_float_round_trip(s: Seq<char>, pos: int, end: int, il: int, fl: int)
    requires
        0 <= pos <= s.len(),
        spec_float_scan(s, pos) == (FloatScan::Matched { end: end, int_len: il, frac_len: fl }),
        il + fl <= 19,
    ensures
        spec_number_val(s, pos) == Ok::<(int, Num), Error>(
            (
                end,
                Num {
                    mantissa: (digits_val(s.subrange(pos, pos + il)) * pow10(fl as nat)
                        + digits_val(s.subrange(pos + il + 1, pos + il + 1 + fl))) as u64,
                    scale: fl as u32,
                },
            ),
        ),
{
    lemma_run_len_bound(s, pos, CharClass::Digit);
    lemma_run_len_bound(s, pos + il + 1, CharClass::Digit);
    let a = s.subrange(pos, pos + il);
    let b = s.subrange(pos + il + 1, pos + il + 1 + fl);
    assert(spec_float_digits(s, pos, il, fl) == a + b);
    crate::scan::lemma_digits_val_append(a, b);
}

} // verus!
