use lox::expr::{Accept, Expr, Visitor};
use lox::token::{Literal, Token, TokenType};

/// Renders a tree in prefix form, and counts the nodes it was handed.
struct Printer {
    visited: usize,
}

impl Printer {
    fn show(&mut self, e: &Expr) -> String {
        e.accept(self)
    }
}

impl Visitor<String> for Printer {
    fn visit_assign(&mut self, name: &Token, value: &Expr) -> String {
        self.visited += 1;
        format!("(= {} {})", name.lexeme, self.show(value))
    }

    fn visit_binary(&mut self, left: &Expr, oper: &Token, right: &Expr) -> String {
        self.visited += 1;
        format!("({} {} {})", oper.lexeme, self.show(left), self.show(right))
    }

    fn visit_call(&mut self, callee: &Expr, _paren: &Token, args: &Vec<Expr>) -> String {
        self.visited += 1;
        let mut text = format!("(call {}", self.show(callee));
        for a in args {
            text.push(' ');
            text.push_str(&self.show(a));
        }
        text.push(')');
        text
    }

    fn visit_get(&mut self, obj: &Expr, name: &Token) -> String {
        self.visited += 1;
        format!("(. {} {})", self.show(obj), name.lexeme)
    }

    fn visit_grouping(&mut self, expression: &Expr) -> String {
        self.visited += 1;
        format!("(group {})", self.show(expression))
    }

    fn visit_literal(&mut self, value: &Option<Literal>) -> String {
        self.visited += 1;
        match value {
            None => "nil".to_string(),
            Some(Literal::Str(s)) => format!("{:?}", s),
            Some(Literal::Number(n)) => n.clone(),
            Some(Literal::Boolean(b)) => b.to_string(),
        }
    }

    fn visit_logical(&mut self, left: &Expr, oper: &Token, right: &Expr) -> String {
        self.visited += 1;
        format!("({} {} {})", oper.lexeme, self.show(left), self.show(right))
    }

    fn visit_set(&mut self, obj: &Expr, name: &Token, value: &Expr) -> String {
        self.visited += 1;
        format!("(.= {} {} {})", self.show(obj), name.lexeme, self.show(value))
    }

    fn visit_super(&mut self, _keyword: &Token, method: &Token) -> String {
        self.visited += 1;
        format!("(super {})", method.lexeme)
    }

    fn visit_this(&mut self, _keyword: &Token) -> String {
        self.visited += 1;
        "this".to_string()
    }

    fn visit_unary(&mut self, oper: &Token, right: &Expr) -> String {
        self.visited += 1;
        format!("({} {})", oper.lexeme, self.show(right))
    }

    fn visit_variable(&mut self, name: &Token) -> String {
        self.visited += 1;
        name.lexeme.clone()
    }
}

fn tok(tt: TokenType, lexeme: &str) -> Token {
    Token::new(tt, lexeme.to_string(), None, 1)
}

fn num(text: &str) -> Expr {
    Expr::Literal { value: Some(Literal::Number(text.to_string())) }
}

fn var(name: &str) -> Expr {
    Expr::Variable { name: tok(TokenType::Identifier, name) }
}

#[test]
fn accept_dispatches_on_the_kind_of_node() {
    let mut p = Printer { visited: 0 };
    let tree = Expr::Binary {
        left: Box::new(Expr::Unary {
            oper: tok(TokenType::Minus, "-"),
            right: Box::new(num("123")),
        }),
        oper: tok(TokenType::Star, "*"),
        right: Box::new(Expr::Grouping { expression: Box::new(num("45.67")) }),
    };
    assert_eq!(tree.accept(&mut p), "(* (- 123) (group 45.67))");
    assert_eq!(p.visited, 5);
}

#[test]
fn accept_reaches_every_kind_of_node() {
    let mut p = Printer { visited: 0 };
    let cases: Vec<(Expr, &str)> = vec![
        (Expr::Assign { name: tok(TokenType::Identifier, "a"), value: Box::new(num("1")) }, "(= a 1)"),
        (
            Expr::Call {
                callee: Box::new(var("f")),
                paren: tok(TokenType::RightParen, ")"),
                args: vec![num("1"), var("x")],
            },
            "(call f 1 x)",
        ),
        (Expr::Get { obj: Box::new(var("a")), name: tok(TokenType::Identifier, "b") }, "(. a b)"),
        (Expr::Literal { value: None }, "nil"),
        (Expr::Literal { value: Some(Literal::Boolean(true)) }, "true"),
        (Expr::Literal { value: Some(Literal::Str("hi".to_string())) }, "\"hi\""),
        (
            Expr::Logical {
                left: Box::new(var("a")),
                oper: tok(TokenType::Or, "or"),
                right: Box::new(var("b")),
            },
            "(or a b)",
        ),
        (
            Expr::SetProperty {
                obj: Box::new(var("a")),
                name: tok(TokenType::Identifier, "b"),
                value: Box::new(num("2")),
            },
            "(.= a b 2)",
        ),
        (
            Expr::Super {
                keyword: tok(TokenType::Super, "super"),
                method: tok(TokenType::Identifier, "m"),
            },
            "(super m)",
        ),
        (Expr::This { keyword: tok(TokenType::This, "this") }, "this"),
        (var("v"), "v"),
    ];
    for (tree, expected) in &cases {
        assert_eq!(tree.accept(&mut p), *expected);
    }
}
