//! Splits a pattern into tokens: `%`-specifiers and runs of literal text.
use vstd::prelude::*;
use vstd::string::*;

verus! {

/// One element of a pattern.
#[derive(PartialEq, Debug, Clone)]
pub enum Token {
    FullYear,
    HalfYear,
    FullMonth,
    WrittenMonth,
    Day,
    TwentyFourHourDay,
    TwelveHourDay,
    Hour,
    Minute,
    Second,
    Literal { pattern: String },
    AmOrPm,
}

/// A range of characters in a pattern: `len` characters from `offset`.
#[derive(Debug, PartialEq, Eq, Copy, Clone)]
pub struct Span {
    pub offset: usize,
    pub len: usize,
}

/// Why a pattern could not be split into tokens. Spans count characters.
#[derive(Debug, PartialEq, Clone)]
pub enum LexerError {
    /// `%` followed by a character that names no field.
    InvalidFormat { src: String, at: Span },
    /// `%` followed by whitespace.
    InvalidWhitespace { at: Span, src: String },
    /// `%` as the last character of the pattern.
    UnexpectedEOF,
}

/// What one step of the lexer yields, as a mathematical value.
pub enum Lexed {
    Tok(Token),
    Lit(Seq<char>),
    Eof,
    Whitespace,
    BadSpecifier,
}

pub open spec fn lexed_of(r: Result<Token, LexerError>) -> Lexed {
    match r {
        Ok(Token::Literal { pattern }) => Lexed::Lit(pattern@),
        Ok(t) => Lexed::Tok(t),
        Err(LexerError::UnexpectedEOF) => Lexed::Eof,
        Err(LexerError::InvalidWhitespace { .. }) => Lexed::Whitespace,
        Err(LexerError::InvalidFormat { .. }) => Lexed::BadSpecifier,
    }
}

/// The characters that `char::is_ascii_whitespace` accepts.
pub open spec fn spec_is_ascii_whitespace(c: char) -> bool {
    c == ' ' || c == '\t' || c == '\n' || c == '\x0C' || c == '\r'
}

/// The token that `%c` stands for, if any.
pub open spec fn specifier(c: char) -> Option<Token> {
    if c == 'Y' {
        Some(Token::FullYear)
    } else if c == 'y' {
        Some(Token::HalfYear)
    } else if c == 'm' {
        Some(Token::FullMonth)
    } else if c == 'B' {
        Some(Token::WrittenMonth)
    } else if c == 'd' {
        Some(Token::Day)
    } else if c == 'H' {
        Some(Token::TwentyFourHourDay)
    } else if c == 'I' {
        Some(Token::TwelveHourDay)
    } else if c == 'M' {
        Some(Token::Minute)
    } else if c == 'S' {
        Some(Token::Second)
    } else if c == 'p' {
        Some(Token::AmOrPm)
    } else {
        None
    }
}

/// Number of characters from `i` on before the next `%` or the end.
pub open spec fn lit_run(p: Seq<char>, i: int) -> nat
    decreases p.len() - i,
{
    if i < 0 || i >= p.len() || p[i] == '%' {
        0
    } else {
        1 + lit_run(p, i + 1)
    }
}

/// The item read at `pos` (with `pos < p.len()`) and the position after it.
pub open spec fn lex_step(p: Seq<char>, pos: int) -> (Lexed, int) {
    if p[pos] == '%' {
        if pos + 1 >= p.len() {
            (Lexed::Eof, p.len() as int)
        } else {
            let c = p[pos + 1];
            let item = match specifier(c) {
                Some(t) => Lexed::Tok(t),
                None => if spec_is_ascii_whitespace(c) {
                    Lexed::Whitespace
                } else {
                    Lexed::BadSpecifier
                },
            };
            (item, pos + 2)
        }
    } else {
        let end = pos + 1 + lit_run(p, pos + 1);
        (Lexed::Lit(p.subrange(pos, end)), end)
    }
}

/// Errors that point into the pattern carry it and the span of `%` and the
/// character after it.
pub open spec fn error_located(r: Result<Token, LexerError>, p: Seq<char>, pos: int) -> bool {
    match r {
        Err(LexerError::InvalidFormat { src, at }) => src@ == p && at.offset == pos && at.len == 2,
        Err(LexerError::InvalidWhitespace { at, src }) => src@ == p && at.offset == pos && at.len
            == 2,
        _ => true,
    }
}

/// A literal run never reaches past the end of the pattern.
pub proof fn lemma_lit_run_bound(p: Seq<char>, i: int)
    requires
        0 <= i <= p.len(),
    ensures
        i + lit_run(p, i) <= p.len(),
    decreases p.len() - i,
{
    if i < p.len() && p[i] != '%' {
        lemma_lit_run_bound(p, i + 1);
    }
}

/// Each step of the lexer moves forward and stays within the pattern.
pub proof fn lemma_lex_step_advances(p: Seq<char>, pos: int)
    requires
        0 <= pos < p.len(),
    ensures
        pos < lex_step(p, pos).1 <= p.len(),
{
    if p[pos] != '%' {
        lemma_lit_run_bound(p, pos + 1);
    }
}

fn is_ascii_whitespace(c: char) -> (r: bool)
    ensures
        r == spec_is_ascii_whitespace(c),
{
    c == ' ' || c == '\t' || c == '\n' || c == '\x0C' || c == '\r'
}

/// A cursor over a pattern; each call of `next` yields one token or error.
#[derive(Debug)]
pub struct DateTimeLexer<'a> {
    input: &'a str,
    pos: usize,
}

impl<'a> DateTimeLexer<'a> {
    /// The pattern being read.
    pub closed spec fn pattern(&self) -> Seq<char> {
        self.input@
    }

    /// The position, in characters, of the next item.
    pub closed spec fn pos(&self) -> int {
        self.pos as int
    }

    pub open spec fn wf(&self) -> bool {
        0 <= self.pos() <= self.pattern().len()
    }

    pub fn new(src: &'a str) -> (r: Self)
        ensures
            r.pattern() == src@,
            r.pos() == 0,
            r.wf(),
    {
        DateTimeLexer { input: src, pos: 0 }
    }

    /// Reads the next item: `None` at the end of the pattern, else the
    /// token or error that `lex_step` describes.
    pub fn next(&mut self) -> (r: Option<Result<Token, LexerError>>)
        requires
            old(self).wf(),
        ensures
            final(self).wf(),
            final(self).pattern() == old(self).pattern(),
            old(self).pos() >= old(self).pattern().len() ==> r.is_none() && final(self).pos()
                == old(self).pos(),
            old(self).pos() < old(self).pattern().len() ==> {
                &&& r.is_some()
                &&& lexed_of(r->Some_0) == lex_step(old(self).pattern(), old(self).pos()).0
                &&& final(self).pos() == lex_step(old(self).pattern(), old(self).pos()).1
                &&& error_located(r->Some_0, old(self).pattern(), old(self).pos())
            },
    {
        let n = self.input.unicode_len();
        if self.pos >= n {
            return None;
        }
        let c = self.input.get_char(self.pos);
        if c == '%' {
            if self.pos + 1 >= n {
                self.pos = n;
                return Some(Err(LexerError::UnexpectedEOF));
            }
            let ident = self.input.get_char(self.pos + 1);
            let start = self.pos;
            self.pos = self.pos + 2;
            let r = match ident {
                'Y' => Ok(Token::FullYear),
                'y' => Ok(Token::HalfYear),
                'm' => Ok(Token::FullMonth),
                'B' => Ok(Token::WrittenMonth),
                'd' => Ok(Token::Day),
                'H' => Ok(Token::TwentyFourHourDay),
                'I' => Ok(Token::TwelveHourDay),
                'M' => Ok(Token::Minute),
                'S' => Ok(Token::Second),
                'p' => Ok(Token::AmOrPm),
                _ => {
                    let at = Span { offset: start, len: 2 };
                    let src = String::from_str(self.input);
                    if is_ascii_whitespace(ident) {
                        Err(LexerError::InvalidWhitespace { at, src })
                    } else {
                        Err(LexerError::InvalidFormat { src, at })
                    }
                },
            };
            Some(r)
        } else {
            let ghost p = self.input@;
            let start = self.pos;
            let mut end = start + 1;
            while end < n && self.input.get_char(end) != '%'
                invariant
                    p == self.input@,
                    n == p.len(),
                    start < end <= n,
                    end + lit_run(p, end as int) == start + 1 + lit_run(p, start + 1),
                decreases n - end,
            {
                end = end + 1;
            }
            let pattern = String::from_str(self.input.substring_char(start, end));
            self.pos = end;
            Some(Ok(Token::Literal { pattern }))
        }
    }
}

} // verus!
