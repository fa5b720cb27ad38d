//! The validated date/time value, its builder and the calendar rules.
use vstd::prelude::*;
use vstd::string::*;

use crate::interpreter::{outcome_of, parse_result, Interpreter, ParseError};
use crate::lexer::Token;

verus! {

/// A date and time of day. The fields are public; a value built through
/// [`DatetimeBuilder::build`] satisfies `wf`.
#[derive(Debug, PartialEq, Eq, Copy, Clone)]
pub struct Datetime {
    pub year: usize,
    pub month: usize,
    pub day: usize,
    pub hour: usize,
    pub minute: usize,
    pub second: usize,
}

/// Accumulates raw field values; `build` validates them all at once.
#[derive(Debug, Copy, Clone)]
pub struct DatetimeBuilder {
    pub year: usize,
    pub month: usize,
    pub day: usize,
    pub hour: usize,
    pub minute: usize,
    pub second: usize,
}

/// The one field that made `build` fail, with the accepted range.
#[derive(Debug, PartialEq, Clone)]
pub enum DatetimeError {
    InvalidValue { field: Token, min: usize, max: usize, got: usize },
}

pub open spec fn spec_is_leap_year(year: int) -> bool {
    (year % 4 == 0 && year % 100 != 0) || year % 400 == 0
}

/// Number of days of `month` in `year`, for `1 <= month <= 12`.
pub open spec fn spec_days_in_month(year: int, month: int) -> int {
    if month == 2 {
        if spec_is_leap_year(year) { 29 } else { 28 }
    } else if month == 4 || month == 6 || month == 9 || month == 11 {
        30
    } else {
        31
    }
}

pub open spec fn valid_month(month: int) -> bool {
    1 <= month <= 12
}

impl Datetime {
    /// The calendar invariant of a validated value.
    pub open spec fn wf(&self) -> bool {
        &&& valid_month(self.month as int)
        &&& 1 <= self.day <= spec_days_in_month(self.year as int, self.month as int)
        &&& self.hour <= 23
        &&& self.minute <= 59
        &&& self.second <= 59
    }
}

/// What `build` yields for the given raw fields: the first field out of
/// range, in the order month, day, hour, minute, second, or the value.
pub open spec fn build_result(b: DatetimeBuilder) -> Result<Datetime, DatetimeError> {
    if !valid_month(b.month as int) {
        Err(DatetimeError::InvalidValue { field: Token::FullMonth, min: 1, max: 12, got: b.month })
    } else if b.day == 0 || b.day > spec_days_in_month(b.year as int, b.month as int) {
        Err(
            DatetimeError::InvalidValue {
                field: Token::Day,
                min: 1,
                max: spec_days_in_month(b.year as int, b.month as int) as usize,
                got: b.day,
            },
        )
    } else if b.hour > 23 {
        Err(DatetimeError::InvalidValue { field: Token::Hour, min: 0, max: 23, got: b.hour })
    } else if b.minute > 59 {
        Err(DatetimeError::InvalidValue { field: Token::Minute, min: 0, max: 59, got: b.minute })
    } else if b.second > 59 {
        Err(DatetimeError::InvalidValue { field: Token::Second, min: 0, max: 59, got: b.second })
    } else {
        Ok(
            Datetime {
                year: b.year,
                month: b.month,
                day: b.day,
                hour: b.hour,
                minute: b.minute,
                second: b.second,
            },
        )
    }
}

/// The starting point of every builder: 1900-01-01 00:00:00.
pub open spec fn default_builder() -> DatetimeBuilder {
    DatetimeBuilder { year: 1900, month: 1, day: 1, hour: 0, minute: 0, second: 0 }
}

pub fn is_leap_year(year: usize) -> (r: bool)
    ensures
        r == spec_is_leap_year(year as int),
{
    (year % 4 == 0 && year % 100 != 0) || year % 400 == 0
}

/// Days in `month` of `year`; `None` when `month` is not in `1..=12`.
pub fn days_in_month(year: usize, month: usize) -> (r: Option<usize>)
    ensures
        valid_month(month as int) ==> r == Some(spec_days_in_month(year as int, month as int) as usize),
        !valid_month(month as int) ==> r.is_none(),
{
    match month {
        1 | 3 | 5 | 7 | 8 | 10 | 12 => Some(31),
        4 | 6 | 9 | 11 => Some(30),
        2 => Some(if is_leap_year(year) { 29 } else { 28 }),
        _ => None,
    }
}

impl Default for Datetime {
    fn default() -> (r: Self)
        ensures
            r == build_result(default_builder())->Ok_0,
    {
        Datetime { year: 1900, month: 1, day: 1, hour: 0, minute: 0, second: 0 }
    }
}

impl Default for DatetimeBuilder {
    fn default() -> (r: Self)
        ensures
            r == default_builder(),
    {
        DatetimeBuilder { year: 1900, month: 1, day: 1, hour: 0, minute: 0, second: 0 }
    }
}

impl DatetimeBuilder {
    pub fn new() -> (r: Self)
        ensures
            r == default_builder(),
    {
        DatetimeBuilder { year: 1900, month: 1, day: 1, hour: 0, minute: 0, second: 0 }
    }

    pub fn year(self, year: usize) -> (r: Self)
        ensures
            r == (DatetimeBuilder { year, ..self }),
    {
        DatetimeBuilder { year, ..self }
    }

    pub fn month(self, month: usize) -> (r: Self)
        ensures
            r == (DatetimeBuilder { month, ..self }),
    {
        DatetimeBuilder { month, ..self }
    }

    pub fn day(self, day: usize) -> (r: Self)
        ensures
            r == (DatetimeBuilder { day, ..self }),
    {
        DatetimeBuilder { day, ..self }
    }

    pub fn hour(self, hour: usize) -> (r: Self)
        ensures
            r == (DatetimeBuilder { hour, ..self }),
    {
        DatetimeBuilder { hour, ..self }
    }

    pub fn minute(self, minute: usize) -> (r: Self)
        ensures
            r == (DatetimeBuilder { minute, ..self }),
    {
        DatetimeBuilder { minute, ..self }
    }

    pub fn second(self, second: usize) -> (r: Self)
        ensures
            r == (DatetimeBuilder { second, ..self }),
    {
        DatetimeBuilder { second, ..self }
    }

    /// Validates every field against the calendar; fails on the first field
    /// out of range, naming it.
    pub fn build(self) -> (r: Result<Datetime, DatetimeError>)
        ensures
            r == build_result(self),
            r matches Ok(d) ==> d.wf(),
    {
        let max_days = match days_in_month(self.year, self.month) {
            Some(days) => days,
            None => {
                return Err(
                    DatetimeError::InvalidValue {
                        field: Token::FullMonth,
                        min: 1,
                        max: 12,
                        got: self.month,
                    },
                );
            },
        };
        if self.day == 0 || self.day > max_days {
            return Err(
                DatetimeError::InvalidValue { field: Token::Day, min: 1, max: max_days, got: self.day },
            );
        }
        if self.hour > 23 {
            return Err(
                DatetimeError::InvalidValue { field: Token::Hour, min: 0, max: 23, got: self.hour },
            );
        }
        if self.minute > 59 {
            return Err(
                DatetimeError::InvalidValue {
                    field: Token::Minute,
                    min: 0,
                    max: 59,
                    got: self.minute,
                },
            );
        }
        if self.second > 59 {
            return Err(
                DatetimeError::InvalidValue {
                    field: Token::Second,
                    min: 0,
                    max: 59,
                    got: self.second,
                },
            );
        }
        Ok(
            Datetime {
                year: self.year,
                month: self.month,
                day: self.day,
                hour: self.hour,
                minute: self.minute,
                second: self.second,
            },
        )
    }
}

/// How many patterns `try_guess` tries.
pub const GUESS_COUNT: usize = 15;

/// The patterns that `try_guess` tries, in order: numeric dates with a
/// four- or two-digit year, then times of day.
pub open spec fn guess_format(i: int) -> Seq<char> {
    if i == 0 {
        "%Y/%m/%d"@
    } else if i == 1 {
        "%Y-%m-%d"@
    } else if i == 2 {
        "%Y/%d/%m"@
    } else if i == 3 {
        "%Y/%d/%m"@
    } else if i == 4 {
        "%y/%m/%d"@
    } else if i == 5 {
        "%y-%m-%d"@
    } else if i == 6 {
        "%y/%d/%m"@
    } else if i == 7 {
        "%y/%d/%m"@
    } else if i == 8 {
        "%H:%M:%S"@
    } else if i == 9 {
        "%Hh:%Mm:%Ss"@
    } else if i == 10 {
        "%H %p:%M:%S"@
    } else if i == 11 {
        "%H %p:%M:%S"@
    } else if i == 12 {
        "%H:%M"@
    } else if i == 13 {
        "%Hh:%Mm"@
    } else {
        "%H:%M %p"@
    }
}

fn common_format(i: usize) -> (r: &'static str)
    requires
        i < GUESS_COUNT,
    ensures
        r@ == guess_format(i as int),
{
    if i == 0 {
        "%Y/%m/%d"
    } else if i == 1 {
        "%Y-%m-%d"
    } else if i == 2 {
        "%Y/%d/%m"
    } else if i == 3 {
        "%Y/%d/%m"
    } else if i == 4 {
        "%y/%m/%d"
    } else if i == 5 {
        "%y-%m-%d"
    } else if i == 6 {
        "%y/%d/%m"
    } else if i == 7 {
        "%y/%d/%m"
    } else if i == 8 {
        "%H:%M:%S"
    } else if i == 9 {
        "%Hh:%Mm:%Ss"
    } else if i == 10 {
        "%H %p:%M:%S"
    } else if i == 11 {
        "%H %p:%M:%S"
    } else if i == 12 {
        "%H:%M"
    } else if i == 13 {
        "%Hh:%Mm"
    } else {
        "%H:%M %p"
    }
}

/// The first of the patterns from the `i`-th on that parses `s`.
pub open spec fn guess_from(s: Seq<char>, i: int) -> Option<Datetime>
    decreases GUESS_COUNT - i,
{
    if i < 0 || i >= GUESS_COUNT {
        None
    } else {
        match parse_result(s, guess_format(i)) {
            Ok(d) => Some(d),
            Err(_) => guess_from(s, i + 1),
        }
    }
}

/// The character of the decimal digit `d`.
pub open spec fn digit_char(d: nat) -> char {
    if d == 0 {
        '0'
    } else if d == 1 {
        '1'
    } else if d == 2 {
        '2'
    } else if d == 3 {
        '3'
    } else if d == 4 {
        '4'
    } else if d == 5 {
        '5'
    } else if d == 6 {
        '6'
    } else if d == 7 {
        '7'
    } else if d == 8 {
        '8'
    } else {
        '9'
    }
}

/// The decimal digits of `n`, without leading zeros.
pub open spec fn decimal(n: nat) -> Seq<char>
    decreases n,
{
    if n < 10 {
        seq![digit_char(n)]
    } else {
        decimal(n / 10).push(digit_char(n % 10))
    }
}

/// `n` in decimal, with a leading zero when it has a single digit.
pub open spec fn padded2(n: nat) -> Seq<char> {
    if n < 10 {
        seq!['0'] + decimal(n)
    } else {
        decimal(n)
    }
}

/// The text `DD/MM/YYYY HH:MM:SS`; the year is written as it is.
pub open spec fn rendering(d: Datetime) -> Seq<char> {
    padded2(d.day as nat) + seq!['/'] + padded2(d.month as nat) + seq!['/'] + decimal(
        d.year as nat,
    ) + seq![' '] + padded2(d.hour as nat) + seq![':'] + padded2(d.minute as nat) + seq![':']
        + padded2(d.second as nat)
}

fn digit_str(d: usize) -> (r: &'static str)
    requires
        d < 10,
    ensures
        r@ == seq![digit_char(d as nat)],
{
    if d == 0 {
        proof {
            reveal_strlit("0");
        }
        "0"
    } else if d == 1 {
        proof {
            reveal_strlit("1");
        }
        "1"
    } else if d == 2 {
        proof {
            reveal_strlit("2");
        }
        "2"
    } else if d == 3 {
        proof {
            reveal_strlit("3");
        }
        "3"
    } else if d == 4 {
        proof {
            reveal_strlit("4");
        }
        "4"
    } else if d == 5 {
        proof {
            reveal_strlit("5");
        }
        "5"
    } else if d == 6 {
        proof {
            reveal_strlit("6");
        }
        "6"
    } else if d == 7 {
        proof {
            reveal_strlit("7");
        }
        "7"
    } else if d == 8 {
        proof {
            reveal_strlit("8");
        }
        "8"
    } else {
        proof {
            reveal_strlit("9");
        }
        "9"
    }
}

fn push_decimal(out: &mut String, n: usize)
    ensures
        final(out)@ == old(out)@ + decimal(n as nat),
    decreases n,
{
    if n >= 10 {
        push_decimal(out, n / 10);
    }
    out.append(digit_str(n % 10));
}

fn push_padded2(out: &mut String, n: usize)
    ensures
        final(out)@ == old(out)@ + padded2(n as nat),
{
    if n < 10 {
        proof {
            reveal_strlit("0");
        }
        out.append("0");
    }
    push_decimal(out, n);
}


impl Datetime {
    /// Parses `date` with the pattern `date_format`.
    pub fn from_str(date: &str, date_format: &str) -> (r: Result<Self, ParseError>)
        ensures
            outcome_of(r) == parse_result(date@, date_format@),
            r matches Ok(d) ==> d.wf(),
    {
        Interpreter::parse_datetime(date, date_format)
    }

    /// The value as `DD/MM/YYYY HH:MM:SS`, with two digits for every field
    /// but the year.
    pub fn render(&self) -> (r: String)
        ensures
            r@ == rendering(*self),
    {
        let mut out = String::new();
        proof {
            reveal_strlit("/");
            reveal_strlit(" ");
            reveal_strlit(":");
        }
        push_padded2(&mut out, self.day);
        out.append("/");
        push_padded2(&mut out, self.month);
        out.append("/");
        push_decimal(&mut out, self.year);
        out.append(" ");
        push_padded2(&mut out, self.hour);
        out.append(":");
        push_padded2(&mut out, self.minute);
        out.append(":");
        push_padded2(&mut out, self.second);
        assert(out@ =~= rendering(*self));
        out
    }

    /// Tries the common patterns in order and returns what the first one
    /// that matches yields.
    pub fn try_guess(date: &str) -> (r: Option<Self>)
        ensures
            r == guess_from(date@, 0),
    {
        let mut i: usize = 0;
        while i < GUESS_COUNT
            invariant
                i <= GUESS_COUNT,
                guess_from(date@, i as int) == guess_from(date@, 0),
            decreases GUESS_COUNT - i,
        {
            match Interpreter::parse_datetime(date, common_format(i)) {
                Ok(d) => {
                    return Some(d);
                },
                Err(_) => {},
            }
            i = i + 1;
        }
        None
    }
}

} // verus!
