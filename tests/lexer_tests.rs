use datetime::{DateTimeLexer, LexerError, Span, Token};

fn all_tokens(pattern: &str) -> Vec<Result<Token, LexerError>> {
    let mut lexer = DateTimeLexer::new(pattern);
    let mut out = Vec::new();
    while let Some(t) = lexer.next() {
        out.push(t);
    }
    out
}

#[test]
fn basic_datetime() {
    let mut parser = DateTimeLexer::new("%Y");
    assert_eq!(parser.next().unwrap().unwrap(), Token::FullYear);
    assert!(parser.next().is_none());
}

#[test]
fn full_datetime() {
    let mut parser = DateTimeLexer::new("%Y%m%d");
    assert_eq!(parser.next().unwrap().unwrap(), Token::FullYear);
    assert_eq!(parser.next().unwrap().unwrap(), Token::FullMonth);
    assert_eq!(parser.next().unwrap().unwrap(), Token::Day);
    assert!(parser.next().is_none());
}

#[test]
fn lexer_tokenization() {
    let test_cases = vec![
        ("%Y", vec![Token::FullYear]),
        ("%m", vec![Token::FullMonth]),
        ("%d", vec![Token::Day]),
        ("%Y%m%d", vec![Token::FullYear, Token::FullMonth, Token::Day]),
        (
            "hello %Y world",
            vec![
                Token::Literal { pattern: String::from("hello ") },
                Token::FullYear,
                Token::Literal { pattern: String::from(" world") },
            ],
        ),
    ];
    for (input, expected_tokens) in test_cases {
        let mut parser = DateTimeLexer::new(input);
        let mut actual_tokens = Vec::new();
        while let Some(token) = parser.next() {
            actual_tokens.push(token.unwrap());
        }
        assert_eq!(actual_tokens, expected_tokens, "Failed on input: {}", input);
    }
}

#[test]
fn test_error_conditions() {
    let mut lexer = DateTimeLexer::new("%Z");
    let result = lexer.next().unwrap();
    assert!(result.is_err());

    let mut lexer = DateTimeLexer::new("% ");
    let result = lexer.next().unwrap();
    assert!(matches!(result, Err(LexerError::InvalidWhitespace { .. })));
}

#[test]
fn test_complex_patterns() {
    let mut lexer = DateTimeLexer::new("Date: %Y-%m-%d Time: %H:%M:%S");
    let mut tokens = Vec::new();
    while let Some(token) = lexer.next() {
        tokens.push(token.unwrap());
    }
    assert_eq!(tokens.len(), 12);
    assert!(matches!(tokens[0], Token::Literal { .. }));
    assert!(matches!(tokens[3], Token::FullMonth));
}

#[test]
fn test_edge_cases() {
    let mut lexer = DateTimeLexer::new("");
    assert!(lexer.next().is_none());

    let mut lexer = DateTimeLexer::new("%");
    let result = lexer.next();
    assert!(result.is_some());
    assert!(result.unwrap().is_err());
}

#[test]
fn test_consecutive_literals_merged() {
    let mut lexer = DateTimeLexer::new("hello world");
    let token = lexer.next().unwrap().unwrap();
    assert_eq!(token, Token::Literal { pattern: "hello world".to_string() });
    assert!(lexer.next().is_none());
}

#[test]
fn lone_percent_is_one_error() {
    assert_eq!(all_tokens("%"), vec![Err(LexerError::UnexpectedEOF)]);
    assert!(all_tokens("").is_empty());
}

#[test]
fn specifier_errors_carry_span() {
    assert_eq!(
        all_tokens("ab%Z")[1],
        Err(LexerError::InvalidFormat {
            src: String::from("ab%Z"),
            at: Span { offset: 2, len: 2 }
        })
    );
    assert_eq!(
        all_tokens("%\t")[0],
        Err(LexerError::InvalidWhitespace {
            at: Span { offset: 0, len: 2 },
            src: String::from("%\t")
        })
    );
}

#[test]
fn every_specifier_maps_to_its_token() {
    assert_eq!(
        all_tokens("%Y%y%m%B%d%H%I%M%S%p"),
        vec![
            Ok(Token::FullYear),
            Ok(Token::HalfYear),
            Ok(Token::FullMonth),
            Ok(Token::WrittenMonth),
            Ok(Token::Day),
            Ok(Token::TwentyFourHourDay),
            Ok(Token::TwelveHourDay),
            Ok(Token::Minute),
            Ok(Token::Second),
            Ok(Token::AmOrPm),
        ]
    );
}

#[test]
fn lexing_is_restartable() {
    let p = "x%Y-%q %m";
    assert_eq!(all_tokens(p), all_tokens(p));
}
