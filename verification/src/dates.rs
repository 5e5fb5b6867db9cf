//! Calendar dates in the fixed `YYYY-MM-DD` textual format, and the
//! render-time `date_range` function.
//!
//! A date is held as plain year/month/day numbers in the proleptic Gregorian
//! calendar, with years limited to four digits so that every valid date has
//! exactly one textual form.

use vstd::prelude::*;
use vstd::string::StringExecFns;

verus! {

/// A calendar date. Valid values satisfy [`date_valid`].
#[derive(Clone, Copy, PartialEq, Eq, Structural, Debug)]
pub struct Date {
    pub year: u32,
    pub month: u32,
    pub day: u32,
}

/// Gregorian leap-year rule.
pub open spec fn is_leap_year(y: int) -> bool {
    y % 4 == 0 && (y % 100 != 0 || y % 400 == 0)
}

/// Number of days of month `m` in year `y`; 0 for an invalid month.
pub open spec fn days_in_month(y: int, m: int) -> int {
    if m == 1 || m == 3 || m == 5 || m == 7 || m == 8 || m == 10 || m == 12 {
        31
    } else if m == 4 || m == 6 || m == 9 || m == 11 {
        30
    } else if m == 2 {
        if is_leap_year(y) {
            29
        } else {
            28
        }
    } else {
        0
    }
}

/// A well-formed date: a real calendar day with a four-digit year.
pub open spec fn date_valid(d: Date) -> bool {
    &&& 1 <= d.month <= 12
    &&& 1 <= d.day <= days_in_month(d.year as int, d.month as int)
    &&& d.year <= 9999
}

/// Calendar order on dates.
pub open spec fn date_lt(a: Date, b: Date) -> bool {
    ||| a.year < b.year
    ||| (a.year == b.year && a.month < b.month)
    ||| (a.year == b.year && a.month == b.month && a.day < b.day)
}

/// Executable test for [`is_leap_year`].
pub fn leap_year(y: u32) -> (r: bool)
    ensures
        r == is_leap_year(y as int),
{
    y % 4 == 0 && (y % 100 != 0 || y % 400 == 0)
}

/// Executable form of [`days_in_month`].
pub fn month_days(y: u32, m: u32) -> (r: u32)
    ensures
        r == days_in_month(y as int, m as int),
{
    if m == 1 || m == 3 || m == 5 || m == 7 || m == 8 || m == 10 || m == 12 {
        31
    } else if m == 4 || m == 6 || m == 9 || m == 11 {
        30
    } else if m == 2 {
        if leap_year(y) {
            29
        } else {
            28
        }
    } else {
        0
    }
}

/// Executable test for [`date_lt`].
pub fn date_before(a: Date, b: Date) -> (r: bool)
    ensures
        r == date_lt(a, b),
{
    if a.year != b.year {
        a.year < b.year
    } else if a.month != b.month {
        a.month < b.month
    } else {
        a.day < b.day
    }
}

/// The day after `d`.
pub open spec fn spec_next_date(d: Date) -> Date {
    if d.day < days_in_month(d.year as int, d.month as int) {
        Date { year: d.year, month: d.month, day: (d.day + 1) as u32 }
    } else if d.month < 12 {
        Date { year: d.year, month: (d.month + 1) as u32, day: 1 }
    } else {
        Date { year: (d.year + 1) as u32, month: 1, day: 1 }
    }
}

/// Executable form of [`spec_next_date`].
pub fn next_day(d: Date) -> (r: Date)
    requires
        date_valid(d),
    ensures
        r == spec_next_date(d),
{
    let dim = month_days(d.year, d.month);
    if d.day < dim {
        Date { year: d.year, month: d.month, day: d.day + 1 }
    } else if d.month < 12 {
        Date { year: d.year, month: d.month + 1, day: 1 }
    } else {
        Date { year: d.year + 1, month: 1, day: 1 }
    }
}

/// A strictly monotone measure of dates, used for termination.
pub open spec fn date_rank(d: Date) -> int {
    d.year * 512 + d.month * 32 + d.day
}

/// The successor of a valid date is valid (until the last representable day)
/// and is the least date above it.
pub proof fn lemma_next_date(d: Date, e: Date)
    requires
        date_valid(d),
        date_valid(e),
        date_lt(d, e),
    ensures
        date_valid(spec_next_date(d)),
        spec_next_date(d) == e || date_lt(spec_next_date(d), e),
        date_rank(d) < date_rank(spec_next_date(d)),
{
}

/// The decimal digit character for `x` in `0..10`.
pub open spec fn digit_char(x: int) -> char {
    if x == 0 {
        '0'
    } else if x == 1 {
        '1'
    } else if x == 2 {
        '2'
    } else if x == 3 {
        '3'
    } else if x == 4 {
        '4'
    } else if x == 5 {
        '5'
    } else if x == 6 {
        '6'
    } else if x == 7 {
        '7'
    } else if x == 8 {
        '8'
    } else {
        '9'
    }
}

fn digit_ch(x: u32) -> (r: char)
    requires
        x < 10,
    ensures
        r == digit_char(x as int),
{
    match x {
        0 => '0',
        1 => '1',
        2 => '2',
        3 => '3',
        4 => '4',
        5 => '5',
        6 => '6',
        7 => '7',
        8 => '8',
        _ => '9',
    }
}

/// The `YYYY-MM-DD` rendering of a date.
pub open spec fn spec_format_date(d: Date) -> Seq<char> {
    seq![
        digit_char(d.year as int / 1000),
        digit_char(d.year as int / 100 % 10),
        digit_char(d.year as int / 10 % 10),
        digit_char(d.year as int % 10),
        '-',
        digit_char(d.month as int / 10),
        digit_char(d.month as int % 10),
        '-',
        digit_char(d.day as int / 10),
        digit_char(d.day as int % 10),
    ]
}

/// Renders a date as `YYYY-MM-DD`.
pub fn format_date(d: Date) -> (r: String)
    requires
        date_valid(d),
    ensures
        r@ == spec_format_date(d),
{
    let mut v: Vec<char> = Vec::new();
    v.push(digit_ch(d.year / 1000));
    v.push(digit_ch(d.year / 100 % 10));
    v.push(digit_ch(d.year / 10 % 10));
    v.push(digit_ch(d.year % 10));
    v.push('-');
    v.push(digit_ch(d.month / 10));
    v.push(digit_ch(d.month % 10));
    v.push('-');
    v.push(digit_ch(d.day / 10));
    v.push(digit_ch(d.day % 10));
    proof {
        assert(v@ =~= spec_format_date(d));
    }
    crate::text::string_of(&v)
}

/// The numeric value of a decimal digit character, or -1.
pub open spec fn digit_val(c: char) -> int {
    if c == '0' {
        0
    } else if c == '1' {
        1
    } else if c == '2' {
        2
    } else if c == '3' {
        3
    } else if c == '4' {
        4
    } else if c == '5' {
        5
    } else if c == '6' {
        6
    } else if c == '7' {
        7
    } else if c == '8' {
        8
    } else if c == '9' {
        9
    } else {
        -1
    }
}

pub open spec fn is_digit(c: char) -> bool {
    digit_val(c) >= 0
}

fn digit_of(c: char) -> (r: Option<u32>)
    ensures
        r is Some <==> is_digit(c),
        r matches Some(v) ==> v == digit_val(c),
{
    match c {
        '0' => Some(0),
        '1' => Some(1),
        '2' => Some(2),
        '3' => Some(3),
        '4' => Some(4),
        '5' => Some(5),
        '6' => Some(6),
        '7' => Some(7),
        '8' => Some(8),
        '9' => Some(9),
        _ => None,
    }
}

/// The string has the shape `YYYY-MM-DD`: ten characters, digits in the date
/// positions and `-` separators.
pub open spec fn date_str_shape(s: Seq<char>) -> bool {
    &&& s.len() == 10
    &&& is_digit(s[0])
    &&& is_digit(s[1])
    &&& is_digit(s[2])
    &&& is_digit(s[3])
    &&& s[4] == '-'
    &&& is_digit(s[5])
    &&& is_digit(s[6])
    &&& s[7] == '-'
    &&& is_digit(s[8])
    &&& is_digit(s[9])
}

/// The date a well-shaped string denotes.
pub open spec fn date_of_str(s: Seq<char>) -> Date {
    Date {
        year: (1000 * digit_val(s[0]) + 100 * digit_val(s[1]) + 10 * digit_val(s[2]) + digit_val(
            s[3],
        )) as u32,
        month: (10 * digit_val(s[5]) + digit_val(s[6])) as u32,
        day: (10 * digit_val(s[8]) + digit_val(s[9])) as u32,
    }
}

/// The string denotes a valid date in the fixed format.
pub open spec fn valid_date_str(s: Seq<char>) -> bool {
    date_str_shape(s) && date_valid(date_of_str(s))
}

/// Parses a `YYYY-MM-DD` string; `None` exactly when the text is not a valid
/// date in that format.
pub fn parse_date(s: &str) -> (r: Option<Date>)
    ensures
        r is Some <==> valid_date_str(s@),
        r matches Some(d) ==> d == date_of_str(s@) && date_valid(d),
{
    let v = crate::text::chars_of(s);
    if v.len() != 10 {
        return None;
    }
    if !(v[4] == '-' && v[7] == '-') {
        return None;
    }
    let d0 = digit_of(v[0]);
    let d1 = digit_of(v[1]);
    let d2 = digit_of(v[2]);
    let d3 = digit_of(v[3]);
    let d5 = digit_of(v[5]);
    let d6 = digit_of(v[6]);
    let d8 = digit_of(v[8]);
    let d9 = digit_of(v[9]);
    match (d0, d1, d2, d3, d5, d6, d8, d9) {
        (
            Some(y0),
            Some(y1),
            Some(y2),
            Some(y3),
            Some(m0),
            Some(m1),
            Some(a0),
            Some(a1),
        ) => {
            let d = Date {
                year: 1000 * y0 + 100 * y1 + 10 * y2 + y3,
                month: 10 * m0 + m1,
                day: 10 * a0 + a1,
            };
            if d.month >= 1 && d.month <= 12 && d.day >= 1 && d.day <= month_days(
                d.year,
                d.month,
            ) {
                Some(d)
            } else {
                None
            }
        },
        _ => None,
    }
}

/// The rendered dates from `s` inclusive up to `e` exclusive, in calendar
/// order; empty unless both dates are valid and `s` is before `e`.
pub open spec fn spec_date_range(s: Date, e: Date) -> Seq<Seq<char>>
    decreases date_rank(e) - date_rank(s),
{
    if date_valid(s) && date_valid(e) && date_lt(s, e) {
        proof {
            lemma_next_date(s, e);
        }
        seq![spec_format_date(s)] + spec_date_range(spec_next_date(s), e)
    } else {
        Seq::empty()
    }
}

/// The sequence of rendered dates from `start` inclusive to `end` exclusive,
/// one calendar day apart; empty whenever `start` is not before `end`, in
/// particular when the two are equal.
pub fn date_range(start: Date, end: Date) -> (r: Vec<String>)
    requires
        date_valid(start),
        date_valid(end),
    ensures
        r.deep_view() == spec_date_range(start, end),
        start == end ==> r@.len() == 0,
{
    let mut out: Vec<String> = Vec::new();
    let mut cur = start;
    while date_before(cur, end)
        invariant
            date_valid(cur),
            date_valid(end),
            spec_date_range(start, end) == out.deep_view() + spec_date_range(cur, end),
        decreases date_rank(end) - date_rank(cur),
    {
        let ghost prev_view = out.deep_view();
        let rendered = format_date(cur);
        out.push(rendered);
        proof {
            lemma_next_date(cur, end);
            assert(out.deep_view() =~= prev_view.push(rendered@));
            assert(prev_view.push(spec_format_date(cur)) + spec_date_range(
                spec_next_date(cur),
                end,
            ) =~= prev_view + (seq![spec_format_date(cur)] + spec_date_range(
                spec_next_date(cur),
                end,
            )));
        }
        cur = next_day(cur);
    }
    proof {
        assert(spec_date_range(cur, end) =~= Seq::<Seq<char>>::empty());
        assert(out.deep_view() =~= spec_date_range(start, end));
        if start == end {
            assert(spec_date_range(start, end) =~= Seq::<Seq<char>>::empty());
            assert(out.deep_view().len() == out@.len());
        }
    }
    out
}

/// Which of the two named arguments of `date_range` is spoken of.
#[derive(Clone, Copy, PartialEq, Eq, Structural, Debug)]
pub enum ArgKind {
    Start,
    End,
}

/// The ways a `date_range` call from a template can be rejected.
///
/// An argument handed over by the caller is `None` when it was absent,
/// `Some(Err(shown))` when it was present but not a string (with its display
/// form), and `Some(Ok(text))` when it was a string.
#[derive(Debug)]
pub enum DateRangeError {
    /// A required argument was absent.
    MissingArgument { which: ArgKind },
    /// The argument was present but not a string; `shown` is its rendering.
    NotAString { which: ArgKind, shown: String },
    /// The argument was a string but not a valid `YYYY-MM-DD` date.
    InvalidFormat { which: ArgKind, value: String },
}

/// The textual name of an argument.
pub open spec fn spec_arg_name(k: ArgKind) -> Seq<char> {
    match k {
        ArgKind::Start => "start"@,
        ArgKind::End => "end"@,
    }
}

fn arg_name(k: ArgKind) -> (r: &'static str)
    ensures
        r@ == spec_arg_name(k),
{
    match k {
        ArgKind::Start => "start",
        ArgKind::End => "end",
    }
}

/// The diagnostic text of a [`DateRangeError`].
pub open spec fn spec_date_range_error_message(e: DateRangeError) -> Seq<char> {
    match e {
        DateRangeError::MissingArgument { which } => "Function `date_range` was called without a `"@
            + spec_arg_name(which) + "` argument"@,
        DateRangeError::NotAString { which, shown } => "Function `date_range` received "@
            + spec_arg_name(which) + "="@ + shown@ + " but it is not a string"@,
        DateRangeError::InvalidFormat { which, value } => "Function `date_range` received "@
            + spec_arg_name(which) + "=\""@ + value@ + "\" but `"@ + spec_arg_name(which)
            + "` is invalid format (%Y-%m-%d)"@,
    }
}

impl DateRangeError {
    /// Renders the error as the message shown to the template author.
    pub fn message(&self) -> (r: String)
        ensures
            r@ == spec_date_range_error_message(*self),
    {
        let mut m = String::new();
        match self {
            DateRangeError::MissingArgument { which } => {
                m.append("Function `date_range` was called without a `");
                m.append(arg_name(*which));
                m.append("` argument");
            },
            DateRangeError::NotAString { which, shown } => {
                m.append("Function `date_range` received ");
                m.append(arg_name(*which));
                m.append("=");
                m.append(shown.as_str());
                m.append(" but it is not a string");
            },
            DateRangeError::InvalidFormat { which, value } => {
                m.append("Function `date_range` received ");
                m.append(arg_name(*which));
                m.append("=\"");
                m.append(value.as_str());
                m.append("\" but `");
                m.append(arg_name(*which));
                m.append("` is invalid format (%Y-%m-%d)");
            },
        }
        m
    }
}

/// The argument is a string holding a valid date.
pub open spec fn arg_ok(a: Option<Result<String, String>>) -> bool {
    a matches Some(Ok(s)) && valid_date_str(s@)
}

/// Validates one named argument of `date_range`.
pub fn check_date_arg(which: ArgKind, arg: Option<Result<String, String>>) -> (r: Result<
    Date,
    DateRangeError,
>)
    ensures
        arg is None ==> r == Err::<Date, DateRangeError>(
            DateRangeError::MissingArgument { which },
        ),
        arg matches Some(Err(shown)) ==> r == Err::<Date, DateRangeError>(
            DateRangeError::NotAString { which, shown },
        ),
        arg matches Some(Ok(s)) ==> (if valid_date_str(s@) {
            r == Ok::<Date, DateRangeError>(date_of_str(s@))
        } else {
            r == Err::<Date, DateRangeError>(DateRangeError::InvalidFormat { which, value: s })
        }),
{
    match arg {
        None => Err(DateRangeError::MissingArgument { which }),
        Some(Err(shown)) => Err(DateRangeError::NotAString { which, shown }),
        Some(Ok(value)) => match parse_date(value.as_str()) {
            Some(d) => Ok(d),
            None => Err(DateRangeError::InvalidFormat { which, value }),
        },
    }
}

/// The render-time `date_range` function: validates the `start` and `end`
/// arguments (in that order) and produces the rendered dates from `start`
/// inclusive to `end` exclusive.
pub fn date_range_checked(
    start: Option<Result<String, String>>,
    end: Option<Result<String, String>>,
) -> (r: Result<Vec<String>, DateRangeError>)
    ensures
        start is None ==> r == Err::<Vec<String>, DateRangeError>(
            DateRangeError::MissingArgument { which: ArgKind::Start },
        ),
        start matches Some(Err(shown)) ==> r == Err::<Vec<String>, DateRangeError>(
            DateRangeError::NotAString { which: ArgKind::Start, shown },
        ),
        start matches Some(Ok(s)) ==> (!valid_date_str(s@) ==> r == Err::<
            Vec<String>,
            DateRangeError,
        >(DateRangeError::InvalidFormat { which: ArgKind::Start, value: s })),
        arg_ok(start) && end is None ==> r == Err::<Vec<String>, DateRangeError>(
            DateRangeError::MissingArgument { which: ArgKind::End },
        ),
        arg_ok(start) ==> (end matches Some(Err(shown)) ==> r == Err::<Vec<String>, DateRangeError>(
            DateRangeError::NotAString { which: ArgKind::End, shown },
        )),
        arg_ok(start) ==> (end matches Some(Ok(e)) ==> (!valid_date_str(e@) ==> r == Err::<
            Vec<String>,
            DateRangeError,
        >(DateRangeError::InvalidFormat { which: ArgKind::End, value: e }))),
        start matches Some(Ok(s)) ==> (end matches Some(Ok(e)) ==> (valid_date_str(s@)
            && valid_date_str(e@) ==> (r matches Ok(v) && v.deep_view() == spec_date_range(
            date_of_str(s@),
            date_of_str(e@),
        )))),
{
    let s = match check_date_arg(ArgKind::Start, start) {
        Ok(d) => d,
        Err(e) => {
            return Err(e);
        },
    };
    let e = match check_date_arg(ArgKind::End, end) {
        Ok(d) => d,
        Err(e) => {
            return Err(e);
        },
    };
    Ok(date_range(s, e))
}

} // verus!
