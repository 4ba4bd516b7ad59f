use lox::expr::Expr;
use lox::syntax_error::{Expected, ParseError};
use lox::parser::{is_terminated, Parser};
use lox::scanner::Scanner;
use lox::token::{Literal, Token, TokenType};

fn tokens_of(source: &str) -> Vec<Token> {
    let mut scanner = Scanner::new(source.to_string());
    let tokens = scanner.scan_tokens();
    assert!(scanner.diagnostics().entries.is_empty());
    tokens
}

fn parse(source: &str) -> Result<Expr, ParseError> {
    let tokens = tokens_of(source);
    assert!(is_terminated(&tokens));
    Parser::new(&tokens).parse()
}

/// The tree in prefix form, every node in brackets.
fn show(e: &Expr) -> String {
    match e {
        Expr::Assign { name, value } => format!("(assign {} {})", name.lexeme, show(value)),
        Expr::Binary { left, oper, right } => {
            format!("(binary {} {} {})", oper.lexeme, show(left), show(right))
        }
        Expr::Call { callee, paren, args } => {
            assert_eq!(paren.token_type, TokenType::RightParen);
            let mut text = format!("(call {}", show(callee));
            for a in args {
                text.push(' ');
                text.push_str(&show(a));
            }
            text.push(')');
            text
        }
        Expr::Get { obj, name } => format!("(get {} {})", show(obj), name.lexeme),
        Expr::Grouping { expression } => format!("(group {})", show(expression)),
        Expr::Literal { value } => match value {
            None => "nil".to_string(),
            Some(Literal::Str(s)) => format!("{:?}", s),
            Some(Literal::Number(n)) => n.clone(),
            Some(Literal::Boolean(b)) => b.to_string(),
        },
        Expr::Logical { left, oper, right } => {
            format!("(logical {} {} {})", oper.lexeme, show(left), show(right))
        }
        Expr::SetProperty { obj, name, value } => {
            format!("(set {} {} {})", show(obj), name.lexeme, show(value))
        }
        Expr::Super { keyword, method } => {
            assert_eq!(keyword.token_type, TokenType::Super);
            format!("(super {})", method.lexeme)
        }
        Expr::This { keyword } => {
            assert_eq!(keyword.token_type, TokenType::This);
            "this".to_string()
        }
        Expr::Unary { oper, right } => format!("(unary {} {})", oper.lexeme, show(right)),
        Expr::Variable { name } => format!("(var {})", name.lexeme),
    }
}

fn shown(source: &str) -> String {
    match parse(source) {
        Ok(e) => show(&e),
        Err(e) => panic!("{:?} for {:?}", e, source),
    }
}

#[test]
fn multiplication_binds_tighter_than_addition() {
    let tree = parse("1 + 2 * 3").unwrap();
    match &tree {
        Expr::Binary { left, oper, right } => {
            assert_eq!(oper.token_type, TokenType::Plus);
            assert!(matches!(**left, Expr::Literal { .. }));
            match &**right {
                Expr::Binary { oper, .. } => assert_eq!(oper.token_type, TokenType::Star),
                other => panic!("right child is {:?}", other),
            }
        }
        other => panic!("root is {:?}", other),
    }
    assert_eq!(show(&tree), "(binary + 1 (binary * 2 3))");
    assert_eq!(shown("1 * 2 + 3"), "(binary + (binary * 1 2) 3)");
}

#[test]
fn subtraction_groups_to_the_left() {
    assert_eq!(shown("1 - 2 - 3"), "(binary - (binary - 1 2) 3)");
    assert_eq!(shown("8 / 4 / 2"), "(binary / (binary / 8 4) 2)");
}

#[test]
fn assignment_groups_to_the_right() {
    assert_eq!(shown("a = b = 3"), "(assign a (assign b 3))");
}

#[test]
fn assignment_to_a_literal_is_an_invalid_target() {
    assert_eq!(parse("1 = 2").unwrap_err(), ParseError::InvalidAssignmentTarget { line: 1 });
}

#[test]
fn invalid_target_is_reported_at_the_line_of_the_equals_sign() {
    assert_eq!(
        parse("(a)\n=\n2").unwrap_err(),
        ParseError::InvalidAssignmentTarget { line: 2 }
    );
    assert_eq!(parse("a + b = 2").unwrap_err(), ParseError::InvalidAssignmentTarget { line: 1 });
    assert_eq!(parse("f() = 2").unwrap_err(), ParseError::InvalidAssignmentTarget { line: 1 });
}

#[test]
fn missing_closing_paren_is_a_missing_token() {
    assert_eq!(
        parse("(1 + 2").unwrap_err(),
        ParseError::MissingExpectedToken {
            line: 1,
            expected: Expected::RightParenAfterExpression
        }
    );
}

#[test]
fn missing_token_is_reported_at_the_line_of_the_token_found() {
    assert_eq!(
        parse("(1 +\n2\n;").unwrap_err(),
        ParseError::MissingExpectedToken {
            line: 3,
            expected: Expected::RightParenAfterExpression
        }
    );
}

#[test]
fn chained_property_access_and_call() {
    let tree = parse("a.b.c(1,2)").unwrap();
    match &tree {
        Expr::Call { callee, args, .. } => {
            assert_eq!(args.len(), 2);
            assert!(matches!(&args[0], Expr::Literal { value: Some(Literal::Number(n)) } if n == "1"));
            assert!(matches!(&args[1], Expr::Literal { value: Some(Literal::Number(n)) } if n == "2"));
            match &**callee {
                Expr::Get { obj, name } => {
                    assert_eq!(name.lexeme, "c");
                    match &**obj {
                        Expr::Get { obj, name } => {
                            assert_eq!(name.lexeme, "b");
                            assert!(matches!(&**obj, Expr::Variable { name } if name.lexeme == "a"));
                        }
                        other => panic!("inner object is {:?}", other),
                    }
                }
                other => panic!("callee is {:?}", other),
            }
        }
        other => panic!("root is {:?}", other),
    }
    assert_eq!(show(&tree), "(call (get (get (var a) b) c) 1 2)");
}

#[test]
fn calls_and_accesses_chain_to_the_left() {
    assert_eq!(shown("a.b(c).d"), "(get (call (get (var a) b) (var c)) d)");
    assert_eq!(shown("f()()"), "(call (call (var f)))");
    assert_eq!(shown("f(a, g(b), c = 1)"), "(call (var f) (var a) (call (var g) (var b)) (assign c 1))");
}

#[test]
fn primaries() {
    assert_eq!(shown("12.5"), "12.5");
    assert_eq!(shown("\"hi\""), "\"hi\"");
    assert_eq!(shown("true"), "true");
    assert_eq!(shown("false"), "false");
    assert_eq!(shown("nil"), "nil");
    assert_eq!(shown("this"), "this");
    assert_eq!(shown("super.init"), "(super init)");
    assert_eq!(shown("x"), "(var x)");
    assert_eq!(shown("(x)"), "(group (var x))");
    assert_eq!(shown("((1))"), "(group (group 1))");
}

#[test]
fn prefix_operators_nest() {
    assert_eq!(shown("!-x"), "(unary ! (unary - (var x)))");
    assert_eq!(shown("- - 1"), "(unary - (unary - 1))");
    assert_eq!(shown("-a.b"), "(unary - (get (var a) b))");
    assert_eq!(shown("1 - -2"), "(binary - 1 (unary - 2))");
}

#[test]
fn every_binary_level() {
    assert_eq!(
        shown("a or b and c == d < e + f * g"),
        "(logical or (var a) (logical and (var b) (binary == (var c) (binary < (var d) (binary + (var e) (binary * (var f) (var g)))))))"
    );
    assert_eq!(
        shown("a * b + c < d == e and f or g"),
        "(logical or (logical and (binary == (binary < (binary + (binary * (var a) (var b)) (var c)) (var d)) (var e)) (var f)) (var g))"
    );
    assert_eq!(shown("a != b == c"), "(binary == (binary != (var a) (var b)) (var c))");
    assert_eq!(
        shown("a < b <= c > d >= e"),
        "(binary >= (binary > (binary <= (binary < (var a) (var b)) (var c)) (var d)) (var e))"
    );
    assert_eq!(shown("a or b or c"), "(logical or (logical or (var a) (var b)) (var c))");
    assert_eq!(shown("a and b and c"), "(logical and (logical and (var a) (var b)) (var c))");
}

#[test]
fn grouping_overrides_precedence() {
    assert_eq!(shown("(1 + 2) * 3"), "(binary * (group (binary + 1 2)) 3)");
}

#[test]
fn assignment_to_a_property_is_a_set() {
    assert_eq!(shown("a.b = 1"), "(set (var a) b 1)");
    assert_eq!(shown("a.b.c = d = 2"), "(set (get (var a) b) c (assign d 2))");
    assert_eq!(shown("a = b or c"), "(assign a (logical or (var b) (var c)))");
}

#[test]
fn every_missing_token() {
    let missing = |expected| ParseError::MissingExpectedToken { line: 1, expected };
    assert_eq!(parse("").unwrap_err(), missing(Expected::Expression));
    assert_eq!(parse("1 +").unwrap_err(), missing(Expected::Expression));
    assert_eq!(parse(")").unwrap_err(), missing(Expected::Expression));
    assert_eq!(parse("a.").unwrap_err(), missing(Expected::PropertyName));
    assert_eq!(parse("a.1").unwrap_err(), missing(Expected::PropertyName));
    assert_eq!(parse("f(1, 2").unwrap_err(), missing(Expected::RightParenAfterArguments));
    assert_eq!(parse("f(1 2)").unwrap_err(), missing(Expected::RightParenAfterArguments));
    assert_eq!(parse("f(,)").unwrap_err(), missing(Expected::Expression));
    assert_eq!(parse("super").unwrap_err(), missing(Expected::DotAfterSuper));
    assert_eq!(parse("super.").unwrap_err(), missing(Expected::SuperclassMethodName));
    assert_eq!(parse("(1").unwrap_err(), missing(Expected::RightParenAfterExpression));
}

#[test]
fn an_error_on_the_right_comes_before_an_invalid_target() {
    assert_eq!(
        parse("1 = (").unwrap_err(),
        ParseError::MissingExpectedToken { line: 1, expected: Expected::Expression }
    );
}

#[test]
fn tokens_after_the_expression_are_left_unread() {
    assert_eq!(shown("1 2"), "1");
    assert_eq!(shown("a b = 3"), "(var a)");
}

#[test]
fn node_tokens_are_those_of_the_source() {
    let tree = parse("x\n  +\n y").unwrap();
    match tree {
        Expr::Binary { left, oper, right } => {
            assert_eq!(oper.line, 2);
            assert_eq!(oper.lexeme, "+");
            assert!(matches!(*left, Expr::Variable { ref name } if name.line == 1));
            assert!(matches!(*right, Expr::Variable { ref name } if name.line == 3));
        }
        other => panic!("root is {:?}", other),
    }
    match parse("f(\n)").unwrap() {
        Expr::Call { paren, args, .. } => {
            assert_eq!(paren.line, 2);
            assert!(args.is_empty());
        }
        other => panic!("root is {:?}", other),
    }
}

#[test]
fn a_sequence_without_end_marker_is_not_terminated() {
    assert!(!is_terminated(&Vec::new()));
    let one = vec![Token::new(TokenType::Number, "1".to_string(), None, 1)];
    assert!(!is_terminated(&one));
    assert!(is_terminated(&tokens_of("")));
}
