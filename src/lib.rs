//! Parsing of date/time strings against `strptime`-style patterns.
//!
//! A pattern such as `"%Y-%m-%d %H:%M:%S"` is first split into tokens by the
//! [`DateTimeLexer`]; the interpreter then walks the tokens and the input in
//! lockstep, filling a [`DatetimeBuilder`], whose `build` validates the
//! fields against the calendar and yields a [`Datetime`].
use vstd::prelude::*;

pub mod datetime;
pub mod interpreter;
pub mod lexer;
pub mod round_trip;

pub use datetime::{days_in_month, is_leap_year, Datetime, DatetimeBuilder, DatetimeError};
pub use interpreter::{parse_digits, Interpreter, ParseError};

pub use lexer::{DateTimeLexer, LexerError, Span, Token};

verus! {

} // verus!
