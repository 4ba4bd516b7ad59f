//! The parser: from tokens to an expression tree, by recursive descent with
//! one token of lookahead.

use vstd::prelude::*;

use crate::expr::{expr_views, lemma_call_view, Expr, ExprView};
use crate::grammar::{
    argument_list, arguments, assignment, binary, binary_rest, call, call_rest, expression,
    finish_call, kind_at, operand, primary, remaining, token_at, unary, Level, Parsed,
    ParsedList,
};
use crate::progress::lemma_expression_progress;
use crate::extent::{ends_expression, lemma_expression_extent};
use crate::precedence::{lemma_expression_grouped, well_grouped};
use crate::reading::{lemma_expression_reads, stands_at, width};
use crate::syntax_error::{Expected, ParseError, ParseErrorView};
use crate::token::{
    copy_tokens, terminated, token_views, Literal, Token, TokenType, TokenView,
};

verus! {

/// The model of what a production returned.
pub open spec fn result_view(r: Result<Expr, ParseError>) -> Result<ExprView, ParseErrorView> {
    match r {
        Ok(e) => Ok(e@),
        Err(e) => Err(e@),
    }
}

/// Whether `tokens` ends in the end-of-input token, as a parser requires.
pub fn is_terminated(tokens: &Vec<Token>) -> (yes: bool)
    ensures
        yes == terminated(token_views(tokens@)),
{
    let n = tokens.len();
    n > 0 && tokens[n - 1].token_type == TokenType::Eof
}

impl Level {
    /// Whether `tt` is an operator of this level.
    pub fn admits(self, tt: TokenType) -> (yes: bool)
        ensures
            yes == self.has_operator(tt),
    {
        match self {
            Level::Or => tt == TokenType::Or,
            Level::And => tt == TokenType::And,
            Level::Equality => tt == TokenType::EqualEqual || tt == TokenType::BangEqual,
            Level::Comparison => tt == TokenType::Less || tt == TokenType::LessEqual
                || tt == TokenType::Greater || tt == TokenType::GreaterEqual,
            Level::Term => tt == TokenType::Plus || tt == TokenType::Minus,
            Level::Factor => tt == TokenType::Star || tt == TokenType::Slash,
        }
    }

    /// The node that joins `left` and `right` by `oper` at this level.
    pub fn node(self, left: Expr, oper: Token, right: Expr) -> (joined: Expr)
        ensures
            joined@ == self.join(left@, oper@, right@),
    {
        match self {
            Level::Or | Level::And => Expr::Logical {
                left: Box::new(left),
                oper,
                right: Box::new(right),
            },
            _ => Expr::Binary { left: Box::new(left), oper, right: Box::new(right) },
        }
    }
}

/// A parser over one token sequence, with its cursor.
pub struct Parser {
    tokens: Vec<Token>,
    current: usize,
}

impl Parser {
    /// The tokens being parsed.
    pub closed spec fn tokens(&self) -> Seq<TokenView> {
        token_views(self.tokens@)
    }

    /// The position of the next token to read.
    pub closed spec fn cursor(&self) -> nat {
        self.current as nat
    }

    /// The tokens are terminated and the cursor stands on one of them.
    pub closed spec fn wf(&self) -> bool {
        &&& terminated(token_views(self.tokens@))
        &&& self.current < self.tokens.len()
    }

    /// Since `before`, the parser used `p.used` tokens and `r` is what `p`
    /// says was found.
    spec fn did(&self, before: &Parser, r: Result<Expr, ParseError>, p: Parsed) -> bool {
        &&& self.wf()
        &&& self.tokens == before.tokens
        &&& self.current == before.current + p.used
        &&& result_view(r) == p.result
    }

    /// Since `before`, the parser used `p.used` tokens and `r` is the list
    /// that `p` says was found.
    spec fn listed(&self, before: &Parser, r: Result<Vec<Expr>, ParseError>, p: ParsedList)
        -> bool {
        &&& self.wf()
        &&& self.tokens == before.tokens
        &&& self.current == before.current + p.used
        &&& match r {
            Ok(v) => p.result == Ok::<Seq<ExprView>, ParseErrorView>(expr_views(v@)),
            Err(e) => p.result == Err::<Seq<ExprView>, ParseErrorView>(e@),
        }
    }

    /// A parser at the start of a copy of `t`.
    pub fn new(t: &Vec<Token>) -> (parser: Parser)
        requires
            terminated(token_views(t@)),
        ensures
            parser.wf(),
            parser.tokens() == token_views(t@),
            parser.cursor() == 0,
    {
        Parser { tokens: copy_tokens(t), current: 0 }
    }

    /// Parses one expression from the cursor on. The cursor stops after the
    /// last token of the expression, or where the error was found. A tree
    /// that is returned is grouped by precedence and associativity, stands
    /// in the tokens that the cursor passed, covering them exactly, and is
    /// followed by no token that could go on with it.
    pub fn parse(&mut self) -> (r: Result<Expr, ParseError>)
        requires
            old(self).wf(),
        ensures
            final(self).wf(),
            final(self).tokens() == old(self).tokens(),
            result_view(r) == expression(old(self).tokens(), old(self).cursor()).result,
            final(self).cursor() == old(self).cursor() + expression(
                old(self).tokens(),
                old(self).cursor(),
            ).used,
            r is Ok ==> final(self).cursor() > old(self).cursor(),
            r matches Ok(e) ==> well_grouped(e@),
            r matches Ok(e) ==> stands_at(e@, old(self).tokens(), old(self).cursor())
                && old(self).cursor() + width(e@) == final(self).cursor(),
            r is Ok ==> ends_expression(kind_at(old(self).tokens(), final(self).cursor())),
    {
        proof {
            let tokens = token_views(self.tokens@);
            lemma_expression_progress(tokens, self.current as nat);
            lemma_expression_grouped(tokens, self.current as nat);
            lemma_expression_reads(tokens, self.current as nat);
            lemma_expression_extent(tokens, self.current as nat);
        }
        self.expression()
    }

    fn expression(&mut self) -> (r: Result<Expr, ParseError>)
        requires
            old(self).wf(),
        ensures
            final(self).did(
                old(self),
                r,
                expression(token_views(old(self).tokens@), old(self).current as nat),
            ),
        decreases remaining(token_views(old(self).tokens@), old(self).current as nat), 40nat,
    {
        proof {
            reveal(expression);
            reveal(assignment);
        }
        self.assignment()
    }

    fn assignment(&mut self) -> (r: Result<Expr, ParseError>)
        requires
            old(self).wf(),
        ensures
            final(self).did(
                old(self),
                r,
                assignment(token_views(old(self).tokens@), old(self).current as nat),
            ),
        decreases remaining(token_views(old(self).tokens@), old(self).current as nat), 39nat,
    {
        proof {
            reveal(assignment);
            reveal(binary);
        }
        let expr = match self.or() {
            Ok(e) => e,
            Err(e) => {
                return Err(e);
            },
        };
        if self.check(TokenType::Equal) {
            let equals = self.advance();
            let value = match self.assignment() {
                Ok(v) => v,
                Err(e) => {
                    return Err(e);
                },
            };
            match expr {
                Expr::Variable { name } => Ok(Expr::Assign { name, value: Box::new(value) }),
                Expr::Get { obj, name } => Ok(
                    Expr::SetProperty { obj, name, value: Box::new(value) },
                ),
                _ => Err(ParseError::InvalidAssignmentTarget { line: equals.line }),
            }
        } else {
            Ok(expr)
        }
    }

    fn or(&mut self) -> (r: Result<Expr, ParseError>)
        requires
            old(self).wf(),
        ensures
            final(self).did(
                old(self),
                r,
                binary(token_views(old(self).tokens@), old(self).current as nat, Level::Or),
            ),
        decreases remaining(token_views(old(self).tokens@), old(self).current as nat), 38nat,
    {
        self.binary(Level::Or)
    }

    fn and(&mut self) -> (r: Result<Expr, ParseError>)
        requires
            old(self).wf(),
        ensures
            final(self).did(
                old(self),
                r,
                binary(token_views(old(self).tokens@), old(self).current as nat, Level::And),
            ),
        decreases remaining(token_views(old(self).tokens@), old(self).current as nat), 35nat,
    {
        self.binary(Level::And)
    }

    fn equality(&mut self) -> (r: Result<Expr, ParseError>)
        requires
            old(self).wf(),
        ensures
            final(self).did(
                old(self),
                r,
                binary(token_views(old(self).tokens@), old(self).current as nat, Level::Equality),
            ),
        decreases remaining(token_views(old(self).tokens@), old(self).current as nat), 32nat,
    {
        self.binary(Level::Equality)
    }

    fn comparison(&mut self) -> (r: Result<Expr, ParseError>)
        requires
            old(self).wf(),
        ensures
            final(self).did(
                old(self),
                r,
                binary(
                    token_views(old(self).tokens@),
                    old(self).current as nat,
                    Level::Comparison,
                ),
            ),
        decreases remaining(token_views(old(self).tokens@), old(self).current as nat), 29nat,
    {
        self.binary(Level::Comparison)
    }

    fn term(&mut self) -> (r: Result<Expr, ParseError>)
        requires
            old(self).wf(),
        ensures
            final(self).did(
                old(self),
                r,
                binary(token_views(old(self).tokens@), old(self).current as nat, Level::Term),
            ),
        decreases remaining(token_views(old(self).tokens@), old(self).current as nat), 26nat,
    {
        self.binary(Level::Term)
    }

    fn factor(&mut self) -> (r: Result<Expr, ParseError>)
        requires
            old(self).wf(),
        ensures
            final(self).did(
                old(self),
                r,
                binary(token_views(old(self).tokens@), old(self).current as nat, Level::Factor),
            ),
        decreases remaining(token_views(old(self).tokens@), old(self).current as nat), 23nat,
    {
        self.binary(Level::Factor)
    }

    /// An operand of `level`: an expression of the next tighter level.
    fn operand(&mut self, level: Level) -> (r: Result<Expr, ParseError>)
        requires
            old(self).wf(),
        ensures
            final(self).did(
                old(self),
                r,
                operand(token_views(old(self).tokens@), old(self).current as nat, level),
            ),
        decreases
            remaining(token_views(old(self).tokens@), old(self).current as nat),
            21 + 3 * level.rank(),
    {
        proof {
            reveal(operand);
            reveal(binary);
            reveal(unary);
        }
        match level {
            Level::Or => self.and(),
            Level::And => self.equality(),
            Level::Equality => self.comparison(),
            Level::Comparison => self.term(),
            Level::Term => self.factor(),
            Level::Factor => self.unary(),
        }
    }

    /// One level of left-associative operators: an operand, then for each
    /// operator of the level that follows, the operator and another
    /// operand, folded onto what was built so far.
    fn binary(&mut self, level: Level) -> (r: Result<Expr, ParseError>)
        requires
            old(self).wf(),
        ensures
            final(self).did(
                old(self),
                r,
                binary(token_views(old(self).tokens@), old(self).current as nat, level),
            ),
        decreases
            remaining(token_views(old(self).tokens@), old(self).current as nat),
            22 + 3 * level.rank(),
    {
        let ghost tv = token_views(self.tokens@);
        let ghost start = self.current as nat;
        proof {
            reveal(binary);
            reveal(binary_rest);
            reveal(operand);
        }
        let mut expr = match self.operand(level) {
            Ok(e) => e,
            Err(e) => {
                return Err(e);
            },
        };
        while level.admits(self.peek().token_type)
            invariant
                self.wf(),
                self.tokens == old(self).tokens,
                tv == token_views(self.tokens@),
                start == old(self).current,
                start <= self.current,
                binary_rest(tv, self.current as nat, level, expr@).after(
                    (self.current - start) as nat,
                ) == binary(tv, start, level),
            decreases self.tokens@.len() - self.current,
        {
            proof {
                reveal(binary_rest);
                reveal(operand);
            }
            let oper = self.advance();
            let right = match self.operand(level) {
                Ok(e) => e,
                Err(e) => {
                    return Err(e);
                },
            };
            expr = level.node(expr, oper, right);
        }
        Ok(expr)
    }

    fn unary(&mut self) -> (r: Result<Expr, ParseError>)
        requires
            old(self).wf(),
        ensures
            final(self).did(
                old(self),
                r,
                unary(token_views(old(self).tokens@), old(self).current as nat),
            ),
        decreases remaining(token_views(old(self).tokens@), old(self).current as nat), 3nat,
    {
        proof {
            reveal(unary);
            reveal(call);
        }
        if self.check(TokenType::Bang) || self.check(TokenType::Minus) {
            let oper = self.advance();
            match self.unary() {
                Ok(right) => Ok(Expr::Unary { oper, right: Box::new(right) }),
                Err(e) => Err(e),
            }
        } else {
            self.call()
        }
    }

    fn call(&mut self) -> (r: Result<Expr, ParseError>)
        requires
            old(self).wf(),
        ensures
            final(self).did(
                old(self),
                r,
                call(token_views(old(self).tokens@), old(self).current as nat),
            ),
        decreases remaining(token_views(old(self).tokens@), old(self).current as nat), 2nat,
    {
        let ghost tv = token_views(self.tokens@);
        let ghost start = self.current as nat;
        proof {
            reveal(call);
            reveal(call_rest);
            reveal(primary);
        }
        let mut expr = match self.primary() {
            Ok(e) => e,
            Err(e) => {
                return Err(e);
            },
        };
        while self.check(TokenType::LeftParen) || self.check(TokenType::Dot)
            invariant
                self.wf(),
                self.tokens == old(self).tokens,
                tv == token_views(self.tokens@),
                start == old(self).current,
                start <= self.current,
                call_rest(tv, self.current as nat, expr@).after((self.current - start) as nat)
                    == call(tv, start),
            decreases self.tokens@.len() - self.current,
        {
            proof {
                reveal(call_rest);
                reveal(finish_call);
            }
            if self.check(TokenType::LeftParen) {
                self.advance();
                expr = match self.finish_call(expr) {
                    Ok(e) => e,
                    Err(e) => {
                        return Err(e);
                    },
                };
            } else {
                self.advance();
                let name = match self.consume(TokenType::Identifier, Expected::PropertyName) {
                    Ok(t) => t,
                    Err(e) => {
                        return Err(e);
                    },
                };
                expr = Expr::Get { obj: Box::new(expr), name };
            }
        }
        Ok(expr)
    }

    /// Parses the arguments and the closing parenthesis of a call of
    /// `callee`, whose opening parenthesis was just consumed.
    fn finish_call(&mut self, callee: Expr) -> (r: Result<Expr, ParseError>)
        requires
            old(self).wf(),
        ensures
            final(self).did(
                old(self),
                r,
                finish_call(token_views(old(self).tokens@), old(self).current as nat, callee@),
            ),
        decreases remaining(token_views(old(self).tokens@), old(self).current as nat), 43nat,
    {
        proof {
            reveal(finish_call);
            reveal(arguments);
        }
        let args = match self.arguments() {
            Ok(a) => a,
            Err(e) => {
                return Err(e);
            },
        };
        let paren = match self.consume(
            TokenType::RightParen,
            Expected::RightParenAfterArguments,
        ) {
            Ok(t) => t,
            Err(e) => {
                return Err(e);
            },
        };
        proof {
            lemma_call_view(Box::new(callee), paren, args);
        }
        Ok(Expr::Call { callee: Box::new(callee), paren, args })
    }

    /// Parses the arguments of a call, up to its closing parenthesis.
    fn arguments(&mut self) -> (r: Result<Vec<Expr>, ParseError>)
        requires
            old(self).wf(),
        ensures
            final(self).listed(
                old(self),
                r,
                arguments(token_views(old(self).tokens@), old(self).current as nat),
            ),
        decreases remaining(token_views(old(self).tokens@), old(self).current as nat), 42nat,
    {
        let ghost tv = token_views(self.tokens@);
        let ghost start = self.current as nat;
        let mut args: Vec<Expr> = Vec::new();
        let mut more = !self.check(TokenType::RightParen);
        proof {
            reveal(arguments);
            reveal(argument_list);
            assert(expr_views(args@) =~= Seq::<ExprView>::empty());
        }
        while more
            invariant
                self.wf(),
                self.tokens == old(self).tokens,
                tv == token_views(self.tokens@),
                start == old(self).current,
                start <= self.current,
                more ==> arguments(tv, start) == argument_list(
                    tv,
                    self.current as nat,
                    expr_views(args@),
                ).after((self.current - start) as nat),
                !more ==> arguments(tv, start) == (ParsedList {
                    result: Ok(expr_views(args@)),
                    used: (self.current - start) as nat,
                }),
            decreases
                    self.tokens@.len() - self.current + if more {
                        1int
                    } else {
                        0int
                    },
        {
            proof {
                reveal(argument_list);
                reveal(expression);
            }
            more = match self.argument(&mut args) {
                Ok(m) => m,
                Err(e) => {
                    return Err(e);
                },
            };
        }
        Ok(args)
    }

    /// Parses one argument onto the end of `args`, and the comma after it
    /// if there is one; tells whether there was.
    fn argument(&mut self, args: &mut Vec<Expr>) -> (r: Result<bool, ParseError>)
        requires
            old(self).wf(),
        ensures
            final(self).wf(),
            final(self).tokens == old(self).tokens,
            ({
                let tv = token_views(old(self).tokens@);
                let first = expression(tv, old(self).current as nat);
                match r {
                    Err(e) => {
                        &&& first.result == Err::<ExprView, ParseErrorView>(e@)
                        &&& final(self).current == old(self).current + first.used
                    },
                    Ok(more) => {
                        &&& first.result is Ok
                        &&& expr_views(final(args)@) == expr_views(old(args)@).push(
                            first.result->Ok_0,
                        )
                        &&& more == (kind_at(tv, old(self).current as nat + first.used) is Comma)
                        &&& final(self).current == old(self).current + first.used + if more {
                            1int
                        } else {
                            0int
                        }
                    },
                }
            }),
        decreases remaining(token_views(old(self).tokens@), old(self).current as nat), 41nat,
    {
        let ghost found = expr_views(args@);
        let arg = match self.expression() {
            Ok(e) => e,
            Err(e) => {
                return Err(e);
            },
        };
        args.push(arg);
        proof {
            assert(expr_views(args@) =~= found.push(arg@));
        }
        Ok(self.match_token(TokenType::Comma))
    }

    fn primary(&mut self) -> (r: Result<Expr, ParseError>)
        requires
            old(self).wf(),
        ensures
            final(self).did(
                old(self),
                r,
                primary(token_views(old(self).tokens@), old(self).current as nat),
            ),
        decreases remaining(token_views(old(self).tokens@), old(self).current as nat), 1nat,
    {
        proof {
            reveal(primary);
            reveal(expression);
        }
        let tt = self.peek().token_type;
        match tt {
            TokenType::False => {
                self.advance();
                Ok(Expr::Literal { value: Some(Literal::Boolean(false)) })
            },
            TokenType::True => {
                self.advance();
                Ok(Expr::Literal { value: Some(Literal::Boolean(true)) })
            },
            TokenType::Nil => {
                self.advance();
                Ok(Expr::Literal { value: None })
            },
            TokenType::Number | TokenType::Str => {
                let token = self.advance();
                Ok(Expr::Literal { value: token.literal })
            },
            TokenType::This => {
                let keyword = self.advance();
                Ok(Expr::This { keyword })
            },
            TokenType::Super => {
                let keyword = self.advance();
                match self.consume(TokenType::Dot, Expected::DotAfterSuper) {
                    Ok(_) => {},
                    Err(e) => {
                        return Err(e);
                    },
                }
                match self.consume(TokenType::Identifier, Expected::SuperclassMethodName) {
                    Ok(method) => Ok(Expr::Super { keyword, method }),
                    Err(e) => Err(e),
                }
            },
            TokenType::Identifier => {
                let name = self.advance();
                Ok(Expr::Variable { name })
            },
            TokenType::LeftParen => {
                self.advance();
                let inner = match self.expression() {
                    Ok(e) => e,
                    Err(e) => {
                        return Err(e);
                    },
                };
                match self.consume(TokenType::RightParen, Expected::RightParenAfterExpression) {
                    Ok(_) => Ok(Expr::Grouping { expression: Box::new(inner) }),
                    Err(e) => Err(e),
                }
            },
            _ => Err(
                ParseError::MissingExpectedToken {
                    line: self.peek().line,
                    expected: Expected::Expression,
                },
            ),
        }
    }

    /// Consumes the next token if it is of category `ttype`; else reports
    /// that `expected` is missing at the token found.
    fn consume(&mut self, ttype: TokenType, expected: Expected) -> (r: Result<Token, ParseError>)
        requires
            old(self).wf(),
            !(ttype is Eof),
        ensures
            final(self).wf(),
            final(self).tokens == old(self).tokens,
            kind_at(token_views(old(self).tokens@), old(self).current as nat) == ttype ==> r
                is Ok && r->Ok_0 == old(self).tokens@[old(self).current as int]
                && final(self).current == old(self).current + 1,
            kind_at(token_views(old(self).tokens@), old(self).current as nat) != ttype ==> r
                == Err::<Token, ParseError>(
                ParseError::MissingExpectedToken {
                    line: old(self).tokens@[old(self).current as int].line,
                    expected,
                },
            ) && final(self).current == old(self).current,
    {
        if self.check(ttype) {
            Ok(self.advance())
        } else {
            Err(ParseError::MissingExpectedToken { line: self.peek().line, expected })
        }
    }

    /// Consumes the next token if it is of category `ttype`.
    fn match_token(&mut self, ttype: TokenType) -> (matched: bool)
        requires
            old(self).wf(),
            !(ttype is Eof),
        ensures
            final(self).wf(),
            final(self).tokens == old(self).tokens,
            matched == (kind_at(token_views(old(self).tokens@), old(self).current as nat)
                == ttype),
            final(self).current == old(self).current + if matched {
                1int
            } else {
                0int
            },
    {
        if self.check(ttype) {
            self.advance();
            true
        } else {
            false
        }
    }

    /// Whether the next token is of category `ttype` and not the end of
    /// input.
    fn check(&self, ttype: TokenType) -> (yes: bool)
        requires
            self.wf(),
        ensures
            yes == (!(ttype is Eof) && kind_at(token_views(self.tokens@), self.current as nat)
                == ttype),
    {
        if self.is_at_end() {
            false
        } else {
            self.peek().token_type == ttype
        }
    }

    /// Moves past the next token, unless it is the end of input, and
    /// returns the token now behind the cursor.
    fn advance(&mut self) -> (token: Token)
        requires
            old(self).wf(),
            old(self).current > 0 || !(kind_at(
                token_views(old(self).tokens@),
                old(self).current as nat,
            ) is Eof),
        ensures
            final(self).wf(),
            final(self).tokens == old(self).tokens,
            final(self).current == old(self).current + if kind_at(
                token_views(old(self).tokens@),
                old(self).current as nat,
            ) is Eof {
                0int
            } else {
                1int
            },
            token == old(self).tokens@[final(self).current - 1],
    {
        if !self.is_at_end() {
            self.current += 1;
        }
        self.previous()
    }

    fn is_at_end(&self) -> (at_end: bool)
        requires
            self.wf(),
        ensures
            at_end == (kind_at(token_views(self.tokens@), self.current as nat) is Eof),
    {
        self.peek().token_type == TokenType::Eof
    }

    /// The next token to read.
    fn peek(&self) -> (token: &Token)
        requires
            self.wf(),
        ensures
            *token == self.tokens@[self.current as int],
            token@ == token_at(token_views(self.tokens@), self.current as nat),
    {
        &self.tokens[self.current]
    }

    /// The token just read.
    fn previous(&self) -> (token: Token)
        requires
            0 < self.current <= self.tokens@.len(),
        ensures
            token == self.tokens@[self.current - 1],
    {
        self.tokens[self.current - 1].clone()
    }
}

} // verus!
