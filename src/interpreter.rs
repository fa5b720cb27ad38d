//! Drives the tokens of a pattern against an input string.
use vstd::prelude::*;
use vstd::string::*;

use crate::datetime::{build_result, default_builder, Datetime, DatetimeBuilder, DatetimeError};
use crate::lexer::{
    lemma_lex_step_advances, lex_step, lexed_of, DateTimeLexer, Lexed, LexerError, Token,
};

verus! {

/// Why an input does not match a pattern. Lengths count characters.
#[derive(Debug, PartialEq, Clone)]
pub enum ParseError {
    /// The pattern itself is malformed.
    Lex(LexerError),
    /// A literal, or the AM/PM marker, differs from the input.
    WrongSequence { expected: String, unexpected: String, src: String },
    /// Fewer characters remain than a numeric field needs.
    InputTooShort { expected: usize, unexpected: usize, src: String },
    /// The characters of a numeric field are not a number that fits `usize`.
    InvalidNumber { src: String },
    /// The fields were read but do not form a valid date and time.
    Invalid(DatetimeError),
    /// The pattern holds a field that cannot be read yet.
    Unsupported(Token),
}

/// A parse failure as a mathematical value.
pub enum Failure {
    Lex(Lexed),
    WrongSequence { expected: Seq<char>, unexpected: Seq<char> },
    InputTooShort { expected: nat, actual: nat },
    InvalidNumber,
    Invalid(DatetimeError),
    Unsupported(Token),
}

pub open spec fn failure_of(e: ParseError) -> Failure {
    match e {
        ParseError::Lex(l) => Failure::Lex(lexed_of(Err(l))),
        ParseError::WrongSequence { expected, unexpected, .. } => Failure::WrongSequence {
            expected: expected@,
            unexpected: unexpected@,
        },
        ParseError::InputTooShort { expected, unexpected, .. } => Failure::InputTooShort {
            expected: expected as nat,
            actual: unexpected as nat,
        },
        ParseError::InvalidNumber { .. } => Failure::InvalidNumber,
        ParseError::Invalid(d) => Failure::Invalid(d),
        ParseError::Unsupported(t) => Failure::Unsupported(t),
    }
}

pub open spec fn outcome_of(r: Result<Datetime, ParseError>) -> Result<Datetime, Failure> {
    match r {
        Ok(d) => Ok(d),
        Err(e) => Err(failure_of(e)),
    }
}

pub open spec fn is_digit(c: char) -> bool {
    '0' <= c <= '9'
}

pub open spec fn all_digits(s: Seq<char>) -> bool {
    forall|i: int| 0 <= i < s.len() ==> is_digit(#[trigger] s[i])
}

/// The base-10 value of a string of digits.
pub open spec fn digits_value(s: Seq<char>) -> nat
    decreases s.len(),
{
    if s.len() == 0 {
        0
    } else {
        digits_value(s.drop_last()) * 10 + (s.last() as nat - '0' as nat) as nat
    }
}

/// The digits of a number as `usize::from_str` reads it: an optional `+`
/// followed by the rest.
pub open spec fn unsigned_digits(s: Seq<char>) -> Seq<char> {
    if s.len() > 0 && s[0] == '+' {
        s.drop_first()
    } else {
        s
    }
}

/// Whether `s` is the text of a number that fits `usize`.
pub open spec fn reads_as_usize(s: Seq<char>) -> bool {
    let d = unsigned_digits(s);
    d.len() > 0 && all_digits(d) && digits_value(d) <= usize::MAX
}

pub open spec fn number_of(s: Seq<char>) -> nat {
    digits_value(unsigned_digits(s))
}

/// Characters that a numeric field takes from the input.
pub open spec fn field_width(t: Token) -> nat {
    match t {
        Token::FullYear => 4,
        _ => 2,
    }
}

pub open spec fn is_numeric(t: Token) -> bool {
    match t {
        Token::FullYear | Token::HalfYear | Token::FullMonth | Token::Day
        | Token::TwentyFourHourDay | Token::TwelveHourDay | Token::Minute | Token::Second => true,
        _ => false,
    }
}

/// A two-digit year: below 25 in the 2000s, else in the 1900s.
pub open spec fn pivot_year(y: nat) -> nat {
    if y < 25 {
        y + 2000
    } else {
        y + 1900
    }
}

/// The builder after a numeric field has read `v`.
pub open spec fn store(t: Token, b: DatetimeBuilder, v: usize) -> DatetimeBuilder {
    match t {
        Token::FullYear => DatetimeBuilder { year: v, ..b },
        Token::HalfYear => DatetimeBuilder { year: pivot_year(v as nat) as usize, ..b },
        Token::FullMonth => DatetimeBuilder { month: v, ..b },
        Token::Day => DatetimeBuilder { day: v, ..b },
        Token::Minute => DatetimeBuilder { minute: v, ..b },
        Token::Second => DatetimeBuilder { second: v, ..b },
        _ => DatetimeBuilder { hour: v, ..b },
    }
}

pub open spec fn am_or_pm() -> Seq<char> {
    "AM or PM"@
}

/// The input's first `n` characters, or all of it when shorter.
pub open spec fn head(s: Seq<char>, n: nat) -> Seq<char> {
    if s.len() >= n {
        s.take(n as int)
    } else {
        s
    }
}

/// One item of the pattern applied to the remaining input and the builder:
/// the input left over and the new builder, or why it failed.
pub open spec fn apply(item: Lexed, inp: Seq<char>, b: DatetimeBuilder) -> Result<
    (Seq<char>, DatetimeBuilder),
    Failure,
> {
    match item {
        Lexed::Tok(t) => {
            if is_numeric(t) {
                let w = field_width(t);
                if inp.len() < w {
                    Err(Failure::InputTooShort { expected: w, actual: inp.len() })
                } else if reads_as_usize(inp.take(w as int)) {
                    Ok((inp.skip(w as int), store(t, b, number_of(inp.take(w as int)) as usize)))
                } else {
                    Err(Failure::InvalidNumber)
                }
            } else if t == Token::AmOrPm {
                if inp.len() >= 2 && inp[0] == 'P' && inp[1] == 'M' {
                    let hour = if b.hour < 12 {
                        (b.hour + 12) as usize
                    } else {
                        b.hour
                    };
                    Ok((inp.skip(2), DatetimeBuilder { hour, ..b }))
                } else if inp.len() >= 2 && inp[0] == 'A' && inp[1] == 'M' {
                    let hour = if b.hour == 12 {
                        0
                    } else {
                        b.hour
                    };
                    Ok((inp.skip(2), DatetimeBuilder { hour, ..b }))
                } else {
                    Err(Failure::WrongSequence { expected: am_or_pm(), unexpected: head(inp, 2) })
                }
            } else {
                Err(Failure::Unsupported(t))
            }
        },
        Lexed::Lit(s) => {
            if inp.len() >= s.len() && inp.take(s.len() as int) == s {
                Ok((inp.skip(s.len() as int), b))
            } else {
                Err(Failure::WrongSequence { expected: s, unexpected: head(inp, s.len()) })
            }
        },
        _ => Err(Failure::Lex(item)),
    }
}

/// The result of matching the pattern `p`, read from position `pos` on,
/// against the input `inp`, starting from the builder `b`.
pub open spec fn interpret(p: Seq<char>, pos: int, inp: Seq<char>, b: DatetimeBuilder) -> Result<
    Datetime,
    Failure,
>
    decreases p.len() - pos,
    via interpret_decreases
{
    if pos < 0 || pos >= p.len() {
        match build_result(b) {
            Ok(d) => Ok(d),
            Err(e) => Err(Failure::Invalid(e)),
        }
    } else {
        match apply(lex_step(p, pos).0, inp, b) {
            Ok((rest, b2)) => interpret(p, lex_step(p, pos).1, rest, b2),
            Err(f) => Err(f),
        }
    }
}

#[via_fn]
proof fn interpret_decreases(p: Seq<char>, pos: int, inp: Seq<char>, b: DatetimeBuilder) {
    if 0 <= pos < p.len() {
        lemma_lex_step_advances(p, pos);
    }
}

/// What parsing `input` with the pattern `format` yields.
pub open spec fn parse_result(input: Seq<char>, format: Seq<char>) -> Result<Datetime, Failure> {
    interpret(format, 0, input, default_builder())
}

/// A prefix of a string of digits is worth no more than the whole.
pub proof fn lemma_digits_prefix_le(s: Seq<char>, k: int)
    requires
        all_digits(s),
        0 <= k <= s.len(),
    ensures
        digits_value(s.take(k)) <= digits_value(s),
    decreases s.len(),
{
    if k == s.len() {
        assert(s.take(k) =~= s);
    } else {
        let t = s.drop_last();
        assert(s.last() == s[s.len() - 1]);
        lemma_digits_prefix_le(t, k);
        assert(t.take(k) =~= s.take(k));
    }
}

/// Two digits are worth at most 99.
pub proof fn lemma_two_digits(s: Seq<char>)
    requires
        all_digits(s),
        s.len() <= 2,
    ensures
        digits_value(s) <= 99,
{
    if s.len() > 0 {
        let t = s.drop_last();
        assert(is_digit(s[s.len() - 1]));
        assert(digits_value(t) <= 9) by {
            if t.len() > 0 {
                assert(is_digit(s[0]));
                assert(t.last() == s[0]);
                assert(t.drop_last().len() == 0);
                assert(digits_value(t.drop_last()) == 0);
            }
        }
        let a = digits_value(t);
        assert(a * 10 <= 90) by (nonlinear_arith)
            requires
                a <= 9,
        ;
    }
}

/// Whether `s` begins with `prefix`, character by character.
fn has_prefix(s: &str, prefix: &str) -> (r: bool)
    ensures
        r == (s@.len() >= prefix@.len() && s@.take(prefix@.len() as int) == prefix@),
{
    let n = s.unicode_len();
    let m = prefix.unicode_len();
    if n < m {
        return false;
    }
    let mut i: usize = 0;
    while i < m
        invariant
            m == prefix@.len(),
            n == s@.len(),
            m <= n,
            i <= m,
            forall|j: int| 0 <= j < i ==> s@[j] == prefix@[j],
        decreases m - i,
    {
        if s.get_char(i) != prefix.get_char(i) {
            assert(s@.take(m as int)[i as int] != prefix@[i as int]);
            return false;
        }
        i = i + 1;
    }
    assert(s@.take(m as int) =~= prefix@);
    true
}

/// Reads `s` as `usize::from_str` does: an optional `+`, then at least one
/// digit, with a value that fits.
fn read_number(s: &str) -> (r: Option<usize>)
    ensures
        reads_as_usize(s@) ==> r == Some(number_of(s@) as usize),
        !reads_as_usize(s@) ==> r.is_none(),
{
    let n = s.unicode_len();
    let mut start: usize = 0;
    if n > 0 && s.get_char(0) == '+' {
        start = 1;
    }
    let ghost d = unsigned_digits(s@);
    assert(d =~= s@.skip(start as int));
    if start >= n {
        return None;
    }
    let mut i: usize = start;
    while i < n
        invariant
            n == s@.len(),
            start <= i <= n,
            d == unsigned_digits(s@),
            d =~= s@.skip(start as int),
            forall|j: int| 0 <= j < i - start ==> is_digit(#[trigger] d[j]),
        decreases n - i,
    {
        let c = s.get_char(i);
        if !('0' <= c && c <= '9') {
            assert(d[i - start] == c);
            assert(!is_digit(d[i - start]));
            return None;
        }
        i = i + 1;
    }
    assert(all_digits(d));
    let mut v: usize = 0;
    let mut i: usize = start;
    while i < n
        invariant
            n == s@.len(),
            start <= i <= n,
            d == unsigned_digits(s@),
            d =~= s@.skip(start as int),
            all_digits(d),
            v == digits_value(d.take(i - start)),
        decreases n - i,
    {
        let c = s.get_char(i);
        let ghost k = i - start;
        assert(d.take(k + 1).drop_last() =~= d.take(k));
        assert(d.take(k + 1).last() == c);
        assert(is_digit(d[k]));
        let digit = (c as u32 - '0' as u32) as usize;
        assert(digits_value(d.take(k + 1)) == v * 10 + digit);
        match v.checked_mul(10) {
            Some(t) => match t.checked_add(digit) {
                Some(u) => {
                    v = u;
                },
                None => {
                    proof {
                        lemma_digits_prefix_le(d, k + 1);
                    }
                    return None;
                },
            },
            None => {
                proof {
                    lemma_digits_prefix_le(d, k + 1);
                }
                return None;
            },
        }
        i = i + 1;
    }
    assert(d.take(n - start) =~= d);
    Some(v)
}

/// Reads a numeric field of `width` characters from the front of `input`;
/// returns its value and the input after it.
pub fn parse_digits(input: &str, width: usize) -> (r: Result<(usize, &str), ParseError>)
    ensures
        input@.len() < width ==> (r matches Err(
            ParseError::InputTooShort { expected, unexpected, src },
        ) && expected == width && unexpected == input@.len() && src@ == input@),
        input@.len() >= width && reads_as_usize(input@.take(width as int)) ==> (r matches Ok(
            (v, rest),
        ) && v == number_of(input@.take(width as int)) && rest@ == input@.skip(width as int)),
        input@.len() >= width && !reads_as_usize(input@.take(width as int)) ==> r matches Err(
            ParseError::InvalidNumber { .. },
        ),
{
    let n = input.unicode_len();
    if n < width {
        return Err(
            ParseError::InputTooShort { expected: width, unexpected: n, src: String::from_str(input) },
        );
    }
    let part = input.substring_char(0, width);
    let rest = input.substring_char(width, n);
    assert(part@ =~= input@.take(width as int));
    assert(rest@ =~= input@.skip(width as int));
    match read_number(part) {
        Some(v) => Ok((v, rest)),
        None => Err(ParseError::InvalidNumber { src: String::from_str(part) }),
    }
}

/// Applies one token to the input and the builder, as `apply` describes.
fn apply_token<'a>(tok: Token, input: &'a str, b: DatetimeBuilder) -> (r: Result<
    (&'a str, DatetimeBuilder),
    ParseError,
>)
    ensures
        match r {
            Ok((rest, b2)) => apply(lexed_of(Ok(tok)), input@, b) == Ok::<
                (Seq<char>, DatetimeBuilder),
                Failure,
            >((rest@, b2)),
            Err(e) => apply(lexed_of(Ok(tok)), input@, b) == Err::<
                (Seq<char>, DatetimeBuilder),
                Failure,
            >(failure_of(e)),
        },
{
    let n = input.unicode_len();
    match tok {
        Token::Literal { pattern } => {
            let m = pattern.as_str().unicode_len();
            if has_prefix(input, pattern.as_str()) {
                let rest = input.substring_char(m, n);
                assert(rest@ =~= input@.skip(m as int));
                Ok((rest, b))
            } else {
                let k = if n >= m {
                    m
                } else {
                    n
                };
                let unexpected = String::from_str(input.substring_char(0, k));
                assert(unexpected@ =~= head(input@, m as nat));
                Err(
                    ParseError::WrongSequence {
                        expected: pattern,
                        unexpected,
                        src: String::from_str(input),
                    },
                )
            }
        },
        Token::AmOrPm => {
            if n >= 2 && input.get_char(0) == 'P' && input.get_char(1) == 'M' {
                let hour = if b.hour < 12 {
                    b.hour + 12
                } else {
                    b.hour
                };
                let rest = input.substring_char(2, n);
                assert(rest@ =~= input@.skip(2));
                Ok((rest, b.hour(hour)))
            } else if n >= 2 && input.get_char(0) == 'A' && input.get_char(1) == 'M' {
                let hour = if b.hour == 12 {
                    0
                } else {
                    b.hour
                };
                let rest = input.substring_char(2, n);
                assert(rest@ =~= input@.skip(2));
                Ok((rest, b.hour(hour)))
            } else {
                let k = if n >= 2 {
                    2
                } else {
                    n
                };
                let unexpected = String::from_str(input.substring_char(0, k));
                assert(unexpected@ =~= head(input@, 2));
                Err(
                    ParseError::WrongSequence {
                        expected: String::from_str("AM or PM"),
                        unexpected,
                        src: String::from_str(input),
                    },
                )
            }
        },
        Token::WrittenMonth => Err(ParseError::Unsupported(Token::WrittenMonth)),
        Token::Hour => Err(ParseError::Unsupported(Token::Hour)),
        Token::FullYear => match parse_digits(input, 4) {
            Ok((v, rest)) => Ok((rest, b.year(v))),
            Err(e) => Err(e),
        },
        Token::HalfYear => match parse_digits(input, 2) {
            Ok((y, rest)) => {
                proof {
                    lemma_two_digits(unsigned_digits(input@.take(2)));
                }
                let year = if y < 25 {
                    y + 2000
                } else {
                    y + 1900
                };
                Ok((rest, b.year(year)))
            },
            Err(e) => Err(e),
        },
        Token::FullMonth => match parse_digits(input, 2) {
            Ok((v, rest)) => Ok((rest, b.month(v))),
            Err(e) => Err(e),
        },
        Token::Day => match parse_digits(input, 2) {
            Ok((v, rest)) => Ok((rest, b.day(v))),
            Err(e) => Err(e),
        },
        Token::TwentyFourHourDay => match parse_digits(input, 2) {
            Ok((v, rest)) => Ok((rest, b.hour(v))),
            Err(e) => Err(e),
        },
        Token::TwelveHourDay => match parse_digits(input, 2) {
            Ok((v, rest)) => Ok((rest, b.hour(v))),
            Err(e) => Err(e),
        },
        Token::Minute => match parse_digits(input, 2) {
            Ok((v, rest)) => Ok((rest, b.minute(v))),
            Err(e) => Err(e),
        },
        Token::Second => match parse_digits(input, 2) {
            Ok((v, rest)) => Ok((rest, b.second(v))),
            Err(e) => Err(e),
        },
    }
}

/// Matches input strings against patterns.
pub struct Interpreter;

impl Interpreter {
    /// Walks the tokens of `expected_format` and `input` together, left to
    /// right, then validates the fields read. Input left over after the last
    /// token is ignored.
    pub fn parse_datetime(input: &str, expected_format: &str) -> (r: Result<Datetime, ParseError>)
        ensures
            outcome_of(r) == parse_result(input@, expected_format@),
            r matches Ok(d) ==> d.wf(),
    {
        let ghost p = expected_format@;
        let mut lexer = DateTimeLexer::new(expected_format);
        let mut rest: &str = input;
        let mut b = DatetimeBuilder::new();
        loop
            invariant
                p == expected_format@,
                lexer.wf(),
                lexer.pattern() == p,
                interpret(p, lexer.pos(), rest@, b) == parse_result(input@, p),
            ensures
                lexer.pos() >= p.len(),
                interpret(p, lexer.pos(), rest@, b) == parse_result(input@, p),
            decreases p.len() - lexer.pos(),
        {
            let ghost pos = lexer.pos();
            proof {
                if pos < p.len() {
                    lemma_lex_step_advances(p, pos);
                }
            }
            match lexer.next() {
                None => {
                    break ;
                },
                Some(Err(e)) => {
                    return Err(ParseError::Lex(e));
                },
                Some(Ok(tok)) => match apply_token(tok, rest, b) {
                    Ok((r2, b2)) => {
                        rest = r2;
                        b = b2;
                    },
                    Err(e) => {
                        return Err(e);
                    },
                },
            }
        }
        match b.build() {
            Ok(d) => Ok(d),
            Err(e) => Err(ParseError::Invalid(e)),
        }
    }
}

} // verus!
