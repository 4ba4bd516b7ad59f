use lox::grammar::Level;
use lox::scanner::lookup_keyword;
use lox::text::{chars_of, spells, text_of};
use lox::token::{copy_tokens, Token, TokenType};

#[test]
fn chars_of_gives_the_characters_in_order() {
    assert_eq!(chars_of(""), Vec::<char>::new());
    assert_eq!(chars_of("a\nb"), vec!['a', '\n', 'b']);
    assert_eq!(chars_of("é!"), vec!['é', '!']);
}

#[test]
fn text_of_gives_the_slice_as_a_string() {
    let chars = chars_of("hello world");
    assert_eq!(text_of(&chars, 0, 5), "hello");
    assert_eq!(text_of(&chars, 6, 11), "world");
    assert_eq!(text_of(&chars, 3, 3), "");
    let wide = chars_of("aéb");
    assert_eq!(text_of(&wide, 1, 3), "éb");
}

#[test]
fn spells_compares_character_for_character() {
    let chars = chars_of("forEach for");
    assert!(spells(&chars, 0, 3, "for"));
    assert!(!spells(&chars, 0, 7, "for"));
    assert!(!spells(&chars, 0, 2, "for"));
    assert!(!spells(&chars, 4, 7, "for"));
    assert!(spells(&chars, 8, 11, "for"));
    assert!(spells(&chars, 5, 5, ""));
}

#[test]
fn lookup_keyword_knows_the_sixteen_keywords_only() {
    let table = [
        ("and", TokenType::And),
        ("class", TokenType::Class),
        ("else", TokenType::Else),
        ("false", TokenType::False),
        ("for", TokenType::For),
        ("fun", TokenType::Fun),
        ("if", TokenType::If),
        ("nil", TokenType::Nil),
        ("or", TokenType::Or),
        ("print", TokenType::Print),
        ("return", TokenType::Return),
        ("super", TokenType::Super),
        ("this", TokenType::This),
        ("true", TokenType::True),
        ("var", TokenType::Var),
        ("while", TokenType::While),
    ];
    for (word, expected) in table {
        let chars = chars_of(word);
        assert_eq!(lookup_keyword(&chars, 0, chars.len()), Some(expected));
        assert_eq!(lookup_keyword(&chars, 0, chars.len() - 1), None);
    }
    for word in ["", "f", "fo", "forEach", "For", "classy", "_if", "nil1"] {
        let chars = chars_of(word);
        assert_eq!(lookup_keyword(&chars, 0, chars.len()), None);
    }
}

#[test]
fn copy_tokens_copies_every_token() {
    let tokens = vec![
        Token::new(TokenType::Identifier, "a".to_string(), None, 1),
        Token::new(TokenType::Eof, String::new(), None, 2),
    ];
    let copy = copy_tokens(&tokens);
    assert_eq!(copy.len(), 2);
    assert_eq!(copy[0].lexeme, "a");
    assert_eq!(copy[0].token_type, TokenType::Identifier);
    assert_eq!(copy[1].line, 2);
    assert_eq!(copy[1].token_type, TokenType::Eof);
}

#[test]
fn each_level_admits_its_own_operators() {
    let all = [
        TokenType::Or,
        TokenType::And,
        TokenType::EqualEqual,
        TokenType::BangEqual,
        TokenType::Less,
        TokenType::LessEqual,
        TokenType::Greater,
        TokenType::GreaterEqual,
        TokenType::Plus,
        TokenType::Minus,
        TokenType::Star,
        TokenType::Slash,
        TokenType::Bang,
        TokenType::Equal,
        TokenType::Eof,
    ];
    let admitted = |level: Level| -> Vec<TokenType> {
        all.iter().copied().filter(|t| level.admits(*t)).collect()
    };
    assert_eq!(admitted(Level::Or), vec![TokenType::Or]);
    assert_eq!(admitted(Level::And), vec![TokenType::And]);
    assert_eq!(admitted(Level::Equality), vec![TokenType::EqualEqual, TokenType::BangEqual]);
    assert_eq!(
        admitted(Level::Comparison),
        vec![
            TokenType::Less,
            TokenType::LessEqual,
            TokenType::Greater,
            TokenType::GreaterEqual
        ]
    );
    assert_eq!(admitted(Level::Term), vec![TokenType::Plus, TokenType::Minus]);
    assert_eq!(admitted(Level::Factor), vec![TokenType::Star, TokenType::Slash]);
}
