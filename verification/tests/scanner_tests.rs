use lox::diagnostics::had_err;
use lox::scanner::Scanner;
use lox::token::{Literal, Token, TokenType};

fn scan(source: &str) -> (Vec<Token>, Vec<(usize, String)>) {
    let mut scanner = Scanner::new(source.to_string());
    let tokens = scanner.scan_tokens();
    let errors = scanner
        .diagnostics()
        .entries
        .iter()
        .map(|d| (d.line, d.message.clone()))
        .collect();
    (tokens, errors)
}

fn types(tokens: &[Token]) -> Vec<TokenType> {
    tokens.iter().map(|t| t.token_type).collect()
}

#[test]
fn empty_source_yields_only_eof() {
    let (tokens, errors) = scan("");
    assert_eq!(types(&tokens), vec![TokenType::Eof]);
    assert_eq!(tokens[0].lexeme, "");
    assert!(tokens[0].literal.is_none());
    assert_eq!(tokens[0].line, 1);
    assert!(errors.is_empty());
}

#[test]
fn each_punctuation_mark_yields_its_token_and_eof() {
    let cases = [
        ("(", TokenType::LeftParen),
        (")", TokenType::RightParen),
        ("{", TokenType::LeftBrace),
        ("}", TokenType::RightBrace),
        (",", TokenType::Comma),
        (".", TokenType::Dot),
        ("-", TokenType::Minus),
        ("+", TokenType::Plus),
        (";", TokenType::Semicolon),
        ("*", TokenType::Star),
        ("/", TokenType::Slash),
    ];
    for (text, expected) in cases {
        let (tokens, errors) = scan(text);
        assert_eq!(types(&tokens), vec![expected, TokenType::Eof]);
        assert_eq!(tokens[0].lexeme, text);
        assert!(tokens[0].literal.is_none());
        assert_eq!(tokens[0].line, 1);
        assert!(errors.is_empty());
    }
}

#[test]
fn two_character_operators_are_one_token() {
    let cases = [
        ("!=", TokenType::BangEqual),
        ("==", TokenType::EqualEqual),
        ("<=", TokenType::LessEqual),
        (">=", TokenType::GreaterEqual),
    ];
    for (text, expected) in cases {
        let (tokens, _) = scan(text);
        assert_eq!(types(&tokens), vec![expected, TokenType::Eof]);
        assert_eq!(tokens[0].lexeme, text);
    }
}

#[test]
fn one_character_operators_stand_alone() {
    let (tokens, _) = scan("! = < >");
    assert_eq!(
        types(&tokens),
        vec![
            TokenType::Bang,
            TokenType::Equal,
            TokenType::Less,
            TokenType::Greater,
            TokenType::Eof
        ]
    );
    let (tokens, _) = scan("!==");
    assert_eq!(types(&tokens), vec![TokenType::BangEqual, TokenType::Equal, TokenType::Eof]);
}

#[test]
fn line_comment_yields_no_token() {
    let (tokens, errors) = scan("// nothing here ( ) 12 \"x");
    assert_eq!(types(&tokens), vec![TokenType::Eof]);
    assert!(errors.is_empty());

    let (tokens, _) = scan("1 // one\n2");
    assert_eq!(types(&tokens), vec![TokenType::Number, TokenType::Number, TokenType::Eof]);
    assert_eq!(tokens[0].line, 1);
    assert_eq!(tokens[1].line, 2);
    assert_eq!(tokens[2].line, 2);
}

#[test]
fn newlines_advance_the_line_counter() {
    let (tokens, _) = scan("\n\n\n");
    assert_eq!(types(&tokens), vec![TokenType::Eof]);
    assert_eq!(tokens[0].line, 4);

    let (tokens, _) = scan("a\n\n  b\r\n\tc");
    assert_eq!(tokens[0].line, 1);
    assert_eq!(tokens[1].line, 3);
    assert_eq!(tokens[2].line, 4);
    assert_eq!(tokens[3].line, 4);
}

#[test]
fn string_literal_strips_its_quotes() {
    let (tokens, errors) = scan("\"hello\"");
    assert_eq!(types(&tokens), vec![TokenType::Str, TokenType::Eof]);
    assert_eq!(tokens[0].lexeme, "\"hello\"");
    assert!(matches!(&tokens[0].literal, Some(Literal::Str(s)) if s == "hello"));
    assert!(errors.is_empty());
}

#[test]
fn empty_string_literal() {
    let (tokens, _) = scan("\"\"");
    assert_eq!(types(&tokens), vec![TokenType::Str, TokenType::Eof]);
    assert!(matches!(&tokens[0].literal, Some(Literal::Str(s)) if s.is_empty()));
}

#[test]
fn multi_line_string_is_on_the_line_of_its_opening_quote() {
    let (tokens, _) = scan("\n\"a\nb\" c");
    assert_eq!(types(&tokens), vec![TokenType::Str, TokenType::Identifier, TokenType::Eof]);
    assert!(matches!(&tokens[0].literal, Some(Literal::Str(s)) if s == "a\nb"));
    assert_eq!(tokens[0].line, 2);
    assert_eq!(tokens[1].line, 3);
}

#[test]
fn unterminated_string_is_an_error_and_no_token() {
    let mut scanner = Scanner::new("\"abc".to_string());
    let tokens = scanner.scan_tokens();
    assert_eq!(types(&tokens), vec![TokenType::Eof]);
    let log = scanner.diagnostics();
    assert!(had_err(log));
    assert_eq!(log.entries.len(), 1);
    assert_eq!(log.entries[0].line, 1);
    assert_eq!(log.entries[0].location, "");
    assert_eq!(log.entries[0].message, "Unterminated string.");
}

#[test]
fn unterminated_string_is_reported_on_the_last_line() {
    let (tokens, errors) = scan("x \"abc\n\ndef");
    assert_eq!(types(&tokens), vec![TokenType::Identifier, TokenType::Eof]);
    assert_eq!(errors, vec![(3, "Unterminated string.".to_string())]);
    assert_eq!(tokens[1].line, 3);
}

#[test]
fn number_with_fraction() {
    let (tokens, _) = scan("123.45");
    assert_eq!(types(&tokens), vec![TokenType::Number, TokenType::Eof]);
    assert_eq!(tokens[0].lexeme, "123.45");
    match &tokens[0].literal {
        Some(Literal::Number(n)) => assert_eq!(n.parse::<f64>().unwrap(), 123.45),
        other => panic!("not a number: {:?}", other),
    }
}

#[test]
fn trailing_dot_is_not_part_of_the_number() {
    let (tokens, _) = scan("123.");
    assert_eq!(types(&tokens), vec![TokenType::Number, TokenType::Dot, TokenType::Eof]);
    assert_eq!(tokens[0].lexeme, "123");
    match &tokens[0].literal {
        Some(Literal::Number(n)) => assert_eq!(n.parse::<f64>().unwrap(), 123.0),
        other => panic!("not a number: {:?}", other),
    }
    assert_eq!(tokens[1].lexeme, ".");
}

#[test]
fn leading_dot_is_not_part_of_a_number() {
    let (tokens, _) = scan(".5");
    assert_eq!(types(&tokens), vec![TokenType::Dot, TokenType::Number, TokenType::Eof]);
    let (tokens, _) = scan("1.2.3");
    assert_eq!(
        types(&tokens),
        vec![TokenType::Number, TokenType::Dot, TokenType::Number, TokenType::Eof]
    );
    assert_eq!(tokens[0].lexeme, "1.2");
    assert_eq!(tokens[2].lexeme, "3");
}

#[test]
fn keywords_match_exactly() {
    let (tokens, _) = scan("forEach");
    assert_eq!(types(&tokens), vec![TokenType::Identifier, TokenType::Eof]);
    assert_eq!(tokens[0].lexeme, "forEach");
    assert!(tokens[0].literal.is_none());

    let (tokens, _) = scan("for");
    assert_eq!(types(&tokens), vec![TokenType::For, TokenType::Eof]);
    assert_eq!(tokens[0].lexeme, "for");
}

#[test]
fn every_keyword_is_recognised() {
    let (tokens, _) = scan(
        "and class else false fun for if nil or print return super this true var while",
    );
    assert_eq!(
        types(&tokens),
        vec![
            TokenType::And,
            TokenType::Class,
            TokenType::Else,
            TokenType::False,
            TokenType::Fun,
            TokenType::For,
            TokenType::If,
            TokenType::Nil,
            TokenType::Or,
            TokenType::Print,
            TokenType::Return,
            TokenType::Super,
            TokenType::This,
            TokenType::True,
            TokenType::Var,
            TokenType::While,
            TokenType::Eof
        ]
    );
}

#[test]
fn identifiers_may_hold_digits_and_underscores() {
    let (tokens, _) = scan("_a1 b_2 For");
    assert_eq!(
        types(&tokens),
        vec![
            TokenType::Identifier,
            TokenType::Identifier,
            TokenType::Identifier,
            TokenType::Eof
        ]
    );
    assert_eq!(tokens[0].lexeme, "_a1");
    assert_eq!(tokens[1].lexeme, "b_2");
    assert_eq!(tokens[2].lexeme, "For");
}

#[test]
fn unexpected_characters_are_reported_and_scanning_goes_on() {
    let (tokens, errors) = scan("a @ b\n# c");
    assert_eq!(
        types(&tokens),
        vec![
            TokenType::Identifier,
            TokenType::Identifier,
            TokenType::Identifier,
            TokenType::Eof
        ]
    );
    assert_eq!(
        errors,
        vec![
            (1, "Unexpected character.".to_string()),
            (2, "Unexpected character.".to_string())
        ]
    );
}

#[test]
fn characters_outside_ascii_are_one_error_each() {
    let (tokens, errors) = scan("é1");
    assert_eq!(types(&tokens), vec![TokenType::Number, TokenType::Eof]);
    assert_eq!(errors.len(), 1);
    let (tokens, _) = scan("\"é\"");
    assert!(matches!(&tokens[0].literal, Some(Literal::Str(s)) if s == "é"));
}

#[test]
fn scanning_an_expression() {
    let (tokens, errors) = scan("a.b = (1 + 2) * -c;");
    assert_eq!(
        types(&tokens),
        vec![
            TokenType::Identifier,
            TokenType::Dot,
            TokenType::Identifier,
            TokenType::Equal,
            TokenType::LeftParen,
            TokenType::Number,
            TokenType::Plus,
            TokenType::Number,
            TokenType::RightParen,
            TokenType::Star,
            TokenType::Minus,
            TokenType::Identifier,
            TokenType::Semicolon,
            TokenType::Eof
        ]
    );
    assert!(errors.is_empty());
}
