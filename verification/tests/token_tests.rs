use lox::token::{Literal, Token, TokenType};

#[test]
fn token_new_keeps_its_fields() {
    let t = Token::new(TokenType::Number, "12".to_string(), Some(Literal::Number("12".to_string())), 3);
    assert_eq!(t.token_type, TokenType::Number);
    assert_eq!(t.lexeme, "12");
    assert_eq!(t.line, 3);
    assert!(matches!(t.literal, Some(Literal::Number(ref n)) if n == "12"));
}

#[test]
fn token_text_is_category_lexeme_and_quoted_lexeme() {
    let t = Token::new(TokenType::Identifier, "x".to_string(), None, 1);
    assert_eq!(t.to_text(), "Identifier x \"x\"");
    let s = Token::new(
        TokenType::Str,
        "\"a\"".to_string(),
        Some(Literal::Str("a".to_string())),
        1,
    );
    assert_eq!(s.to_text(), "Str \"a\" \"\\\"a\\\"\"");
    let eof = Token::new(TokenType::Eof, String::new(), None, 7);
    assert_eq!(eof.to_text(), "Eof  \"\"");
}

#[test]
fn category_names() {
    assert_eq!(TokenType::LeftParen.name(), "LeftParen");
    assert_eq!(TokenType::BangEqual.name(), "BangEqual");
    assert_eq!(TokenType::Str.name(), "Str");
    assert_eq!(TokenType::While.name(), "While");
    assert_eq!(TokenType::Eof.name(), "Eof");
    assert_eq!(format!("{:?}", TokenType::GreaterEqual), TokenType::GreaterEqual.name());
}

#[test]
fn clone_keeps_every_field() {
    let t = Token::new(
        TokenType::Number,
        "1.5".to_string(),
        Some(Literal::Number("1.5".to_string())),
        9,
    );
    let c = t.clone();
    assert_eq!(c.token_type, TokenType::Number);
    assert_eq!(c.lexeme, "1.5");
    assert_eq!(c.line, 9);
    assert!(matches!(c.literal, Some(Literal::Number(ref n)) if n == "1.5"));
    let b = Literal::Boolean(true).clone();
    assert!(matches!(b, Literal::Boolean(true)));
}
