use datetime::{parse_digits, Datetime, DatetimeError, Interpreter, LexerError, ParseError, Token};

#[test]
fn basic_str_to_datetime() {
    let mut input = String::from("04-02-2003");
    let result = Interpreter::parse_datetime(&mut input, "%d-%m-%Y").unwrap();
    assert_eq!(result, Datetime { year: 2003, month: 2, day: 4, ..Default::default() });
}

#[test]
fn expected_err() {
    let mut input = String::from("04-02?2003");
    let result = Interpreter::parse_datetime(&mut input, "%d-%m-%Y");
    assert!(result.is_err());
}

#[test]
fn test_all_token_types() {
    let mut input = String::from("2023");
    let result = parse_digits(&mut input, 4).unwrap();
    assert_eq!(result.0, 2023);

    let mut input = String::from("2023-05-15 14:30:25");
    let result = Interpreter::parse_datetime(&mut input, "%Y-%m-%d %H:%M:%S").unwrap();
    assert_eq!(
        result,
        Datetime { year: 2023, month: 5, day: 15, hour: 14, minute: 30, second: 25 }
    );

    let mut input = String::from("03:45:20 PM");
    let result = Interpreter::parse_datetime(&mut input, "%I:%M:%S %p").unwrap();
    assert_eq!(result, Datetime { hour: 15, minute: 45, second: 20, ..Default::default() });
}

#[test]
fn test_error_handling() {
    let mut input = String::from("2023/05/15");
    let result = Interpreter::parse_datetime(&mut input, "%Y-%m-%d");
    assert!(result.is_err());

    let mut input = String::from("23-5-15");
    let result = Interpreter::parse_datetime(&mut input, "%Y-%m-%d");
    assert!(result.is_err());

    let mut input = String::from("20a3-05-15");
    let result = Interpreter::parse_datetime(&mut input, "%Y-%m-%d");
    assert!(result.is_err());
}

#[test]
fn test_edge_dates() {
    let mut input = String::from("0001-01-01");
    let result = Interpreter::parse_datetime(&mut input, "%Y-%m-%d").unwrap();
    assert_eq!(result.year, 1);
    assert_eq!(result.month, 1);
    assert_eq!(result.day, 1);

    let mut input = String::from("2020-02-29");
    let result = Interpreter::parse_datetime(&mut input, "%Y-%m-%d").unwrap();
    assert_eq!(result.year, 2020);
    assert_eq!(result.month, 2);
    assert_eq!(result.day, 29);
}

#[test]
fn twelve_hour_clock_corrections() {
    let d = Interpreter::parse_datetime("12:00:00 AM", "%I:%M:%S %p").unwrap();
    assert_eq!(d.hour, 0);
    let d = Interpreter::parse_datetime("12:30:00 PM", "%I:%M:%S %p").unwrap();
    assert_eq!(d.hour, 12);
    let d = Interpreter::parse_datetime("09:15:00 AM", "%I:%M:%S %p").unwrap();
    assert_eq!(d.hour, 9);
    // Without an hour field the hour stays at its default of 0, and PM adds 12.
    let d = Interpreter::parse_datetime("PM", "%p").unwrap();
    assert_eq!(d.hour, 12);
}

#[test]
fn half_year_pivots_at_25() {
    let d = Interpreter::parse_datetime("24-01-01", "%y-%m-%d").unwrap();
    assert_eq!(d.year, 2024);
    let d = Interpreter::parse_datetime("25-01-01", "%y-%m-%d").unwrap();
    assert_eq!(d.year, 1925);
    let d = Interpreter::parse_datetime("99-01-01", "%y-%m-%d").unwrap();
    assert_eq!(d.year, 1999);
}

#[test]
fn trailing_input_is_ignored() {
    let d = Interpreter::parse_datetime("2023-10-15 and more", "%Y-%m-%d").unwrap();
    assert_eq!((d.year, d.month, d.day), (2023, 10, 15));
}

#[test]
fn month_thirteen_is_rejected() {
    let err = Datetime::from_str("2023-13-32", "%Y-%m-%d").unwrap_err();
    assert_eq!(
        err,
        ParseError::Invalid(DatetimeError::InvalidValue {
            field: Token::FullMonth,
            min: 1,
            max: 12,
            got: 13
        })
    );
}

#[test]
fn short_year_field_fails() {
    // The four characters "23-5" are taken for the year and are no number.
    let err = Datetime::from_str("23-5-15", "%Y-%m-%d").unwrap_err();
    assert!(matches!(err, ParseError::InvalidNumber { .. }));
}

#[test]
fn input_too_short_error() {
    let err = Interpreter::parse_datetime("20", "%Y").unwrap_err();
    assert_eq!(
        err,
        ParseError::InputTooShort { expected: 4, unexpected: 2, src: String::from("20") }
    );
}

#[test]
fn wrong_literal_error() {
    let err = Interpreter::parse_datetime("2023/05/15", "%Y-%m-%d").unwrap_err();
    assert_eq!(
        err,
        ParseError::WrongSequence {
            expected: String::from("-"),
            unexpected: String::from("/"),
            src: String::from("/05/15"),
        }
    );
}

#[test]
fn wrong_am_pm_error() {
    let err = Interpreter::parse_datetime("03 XM", "%I %p").unwrap_err();
    assert_eq!(
        err,
        ParseError::WrongSequence {
            expected: String::from("AM or PM"),
            unexpected: String::from("XM"),
            src: String::from("XM"),
        }
    );
}

#[test]
fn lexer_error_is_reported() {
    let err = Interpreter::parse_datetime("2023", "%Y%").unwrap_err();
    assert_eq!(err, ParseError::Lex(LexerError::UnexpectedEOF));
}

#[test]
fn written_month_is_unsupported() {
    let err = Interpreter::parse_datetime("May", "%B").unwrap_err();
    assert_eq!(err, ParseError::Unsupported(Token::WrittenMonth));
}

#[test]
fn digits_accept_plus_sign_and_report_rest() {
    let (v, rest) = parse_digits("+7xyz", 2).unwrap();
    assert_eq!(v, 7);
    assert_eq!(rest, "xyz");
    assert!(matches!(parse_digits("1a", 2), Err(ParseError::InvalidNumber { .. })));
    assert!(matches!(parse_digits("+", 1), Err(ParseError::InvalidNumber { .. })));
    let (v, _) = parse_digits("18446744073709551615", 20).unwrap();
    assert_eq!(v, usize::MAX);
    assert!(matches!(
        parse_digits("18446744073709551616", 20),
        Err(ParseError::InvalidNumber { .. })
    ));
}
