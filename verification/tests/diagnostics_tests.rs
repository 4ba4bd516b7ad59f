use lox::diagnostics::{declare_error, error, had_err, report, ErrorLog};
use lox::syntax_error::{Expected, ParseError};
use lox::run::run;
use lox::token::TokenType;

#[test]
fn a_new_log_is_empty_and_unflagged() {
    let log = ErrorLog::new();
    assert!(!had_err(&log));
    assert!(log.entries.is_empty());
}

#[test]
fn error_appends_an_entry_without_location() {
    let mut log = ErrorLog::new();
    error(&mut log, 3, "Unexpected character.".to_string());
    assert!(had_err(&log));
    assert_eq!(log.entries.len(), 1);
    assert_eq!(log.entries[0].line, 3);
    assert_eq!(log.entries[0].location, "");
    assert_eq!(log.entries[0].message, "Unexpected character.");
}

#[test]
fn report_keeps_the_order_of_arrival() {
    let mut log = ErrorLog::new();
    report(&mut log, 1, " at end".to_string(), "first".to_string());
    report(&mut log, 2, "".to_string(), "second".to_string());
    assert_eq!(log.entries.len(), 2);
    assert_eq!(log.entries[0].location, " at end");
    assert_eq!(log.entries[0].message, "first");
    assert_eq!(log.entries[1].line, 2);
    assert_eq!(log.entries[1].message, "second");
}

#[test]
fn declare_error_raises_the_flag_only() {
    let mut log = ErrorLog::new();
    declare_error(&mut log);
    assert!(had_err(&log));
    assert!(log.entries.is_empty());
}

#[test]
fn every_syntax_error_has_its_own_message() {
    let errors = [
        ParseError::MissingExpectedToken { line: 1, expected: Expected::Expression },
        ParseError::MissingExpectedToken { line: 1, expected: Expected::RightParenAfterExpression },
        ParseError::MissingExpectedToken { line: 1, expected: Expected::RightParenAfterArguments },
        ParseError::MissingExpectedToken { line: 1, expected: Expected::PropertyName },
        ParseError::MissingExpectedToken { line: 1, expected: Expected::DotAfterSuper },
        ParseError::MissingExpectedToken { line: 1, expected: Expected::SuperclassMethodName },
        ParseError::InvalidAssignmentTarget { line: 1 },
    ];
    let messages: Vec<String> = errors.iter().map(|e| e.message()).collect();
    assert_eq!(
        messages,
        vec![
            "Expect expression.",
            "Expect ')' after expression.",
            "Expect ')' after arguments.",
            "Expect property name after '.'.",
            "Expect '.' after 'super'.",
            "Expect superclass method name.",
            "Invalid assignment target.",
        ]
    );
    for m in &messages {
        assert_ne!(m, "Unexpected character.");
        assert_ne!(m, "Unterminated string.");
    }
}

#[test]
fn a_syntax_error_is_reported_by_line_and_message() {
    let mut log = ErrorLog::new();
    let e = ParseError::InvalidAssignmentTarget { line: 12 };
    assert_eq!(e.line(), 12);
    e.report(&mut log);
    let m = ParseError::MissingExpectedToken { line: 4, expected: Expected::PropertyName };
    assert_eq!(m.line(), 4);
    m.report(&mut log);
    assert!(had_err(&log));
    assert_eq!(log.entries.len(), 2);
    assert_eq!(log.entries[0].line, 12);
    assert_eq!(log.entries[0].location, "");
    assert_eq!(log.entries[0].message, "Invalid assignment target.");
    assert_eq!(log.entries[1].line, 4);
    assert_eq!(log.entries[1].message, "Expect property name after '.'.");
}

#[test]
fn run_returns_tokens_and_log() {
    let (tokens, log) = run("var x = 1;\n@".to_string());
    let types: Vec<TokenType> = tokens.iter().map(|t| t.token_type).collect();
    assert_eq!(
        types,
        vec![
            TokenType::Var,
            TokenType::Identifier,
            TokenType::Equal,
            TokenType::Number,
            TokenType::Semicolon,
            TokenType::Eof
        ]
    );
    assert!(had_err(&log));
    assert_eq!(log.entries.len(), 1);
    assert_eq!(log.entries[0].line, 2);

    let (tokens, log) = run("1 + 2".to_string());
    assert_eq!(tokens.len(), 4);
    assert!(!had_err(&log));
    assert!(log.entries.is_empty());
}
