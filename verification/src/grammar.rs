//! The mathematical model of parsing: which tree, or which error, a
//! sequence of tokens stands for, and how many tokens that takes.
//!
//! The grammar, from the loosest binding to the tightest:
//!
//! ```text
//! expression := assignment
//! assignment := or [ "=" assignment ]
//! or         := and ( "or" and )*
//! and        := equality ( "and" equality )*
//! equality   := comparison ( ( "==" | "!=" ) comparison )*
//! comparison := term ( ( "<" | "<=" | ">" | ">=" ) term )*
//! term       := factor ( ( "+" | "-" ) factor )*
//! factor     := unary ( ( "*" | "/" ) unary )*
//! unary      := ( "!" | "-" ) unary | call
//! call       := primary ( "(" [ expression ( "," expression )* ] ")" | "." IDENTIFIER )*
//! primary    := NUMBER | STRING | "true" | "false" | "nil" | "this"
//!             | "super" "." IDENTIFIER | IDENTIFIER | "(" expression ")"
//! ```
//!
//! Every function below reads `tokens` from position `pos` on and says what
//! it found and how many tokens it used, so a production that follows
//! another starts where the first one stopped. Past the last token the
//! end-of-input token is read again and again, and no production takes it.
//!
//! The productions call one another in a circle, so each is opaque: a proof
//! about one of them reveals it, and those it calls.

use vstd::prelude::*;

use crate::expr::ExprView;
use crate::syntax_error::{Expected, ParseErrorView};
use crate::token::{LiteralView, TokenType, TokenView};

verus! {

/// The levels of left-associative binary operators, loosest first.
#[derive(Clone, Copy, Debug, PartialEq, Eq, Structural)]
pub enum Level {
    Or,
    And,
    Equality,
    Comparison,
    Term,
    Factor,
}

impl Level {
    /// How loosely this level binds: 0 for the tightest.
    pub open spec fn rank(self) -> nat {
        match self {
            Level::Or => 5,
            Level::And => 4,
            Level::Equality => 3,
            Level::Comparison => 2,
            Level::Term => 1,
            Level::Factor => 0,
        }
    }

    /// Whether `tt` is an operator of this level.
    pub open spec fn has_operator(self, tt: TokenType) -> bool {
        match self {
            Level::Or => tt is Or,
            Level::And => tt is And,
            Level::Equality => tt is EqualEqual || tt is BangEqual,
            Level::Comparison => tt is Less || tt is LessEqual || tt is Greater
                || tt is GreaterEqual,
            Level::Term => tt is Plus || tt is Minus,
            Level::Factor => tt is Star || tt is Slash,
        }
    }

    /// Whether this level builds `Logical` nodes rather than `Binary` ones.
    pub open spec fn is_logical(self) -> bool {
        self is Or || self is And
    }

    /// The node that joins `left` and `right` by `oper` at this level.
    pub open spec fn join(self, left: ExprView, oper: TokenView, right: ExprView) -> ExprView {
        if self.is_logical() {
            ExprView::Logical { left: Box::new(left), oper, right: Box::new(right) }
        } else {
            ExprView::Binary { left: Box::new(left), oper, right: Box::new(right) }
        }
    }
}

/// The token at `pos`.
pub open spec fn token_at(tokens: Seq<TokenView>, pos: nat) -> TokenView
    recommends
        pos < tokens.len(),
{
    tokens[pos as int]
}

/// The category of the token at `pos`; past the end, end-of-input.
pub open spec fn kind_at(tokens: Seq<TokenView>, pos: nat) -> TokenType {
    if pos < tokens.len() {
        token_at(tokens, pos).token_type
    } else {
        TokenType::Eof
    }
}

/// The line of the token at `pos`.
pub open spec fn line_of(tokens: Seq<TokenView>, pos: nat) -> nat {
    if pos < tokens.len() {
        token_at(tokens, pos).line
    } else {
        0
    }
}

/// How many tokens stand at `pos` and after it.
pub open spec fn remaining(tokens: Seq<TokenView>, pos: nat) -> nat {
    if pos < tokens.len() {
        (tokens.len() - pos) as nat
    } else {
        0
    }
}

/// What a production found, and how many tokens it used to find it.
pub struct Parsed {
    pub result: Result<ExprView, ParseErrorView>,
    pub used: nat,
}

impl Parsed {
    /// The tree `e` was found, with `used` tokens.
    pub open spec fn ok(e: ExprView, used: nat) -> Parsed {
        Parsed { result: Ok(e), used }
    }

    /// After `used` tokens, the token at `at` stands where `expected` is
    /// missing.
    pub open spec fn missing(tokens: Seq<TokenView>, at: nat, expected: Expected, used: nat)
        -> Parsed {
        Parsed {
            result: Err(
                ParseErrorView::MissingExpectedToken { line: line_of(tokens, at), expected },
            ),
            used,
        }
    }

    /// This outcome, after `before` more tokens were used ahead of it.
    pub open spec fn after(self, before: nat) -> Parsed {
        Parsed { result: self.result, used: before + self.used }
    }
}

/// What an argument list came to, and how many tokens it used.
pub struct ParsedList {
    pub result: Result<Seq<ExprView>, ParseErrorView>,
    pub used: nat,
}

impl ParsedList {
    /// This outcome, after `before` more tokens were used ahead of it.
    pub open spec fn after(self, before: nat) -> ParsedList {
        ParsedList { result: self.result, used: before + self.used }
    }
}

/// `primary`: a literal, `this`, `super.name`, a variable, or an expression
/// in parentheses.
#[verifier::opaque]
pub open spec fn primary(tokens: Seq<TokenView>, pos: nat) -> Parsed
    decreases remaining(tokens, pos), 1nat,
{
    match kind_at(tokens, pos) {
        TokenType::False => Parsed::ok(
            ExprView::Literal { value: Some(LiteralView::Boolean(false)) },
            1,
        ),
        TokenType::True => Parsed::ok(
            ExprView::Literal { value: Some(LiteralView::Boolean(true)) },
            1,
        ),
        TokenType::Nil => Parsed::ok(ExprView::Literal { value: None }, 1),
        TokenType::Number | TokenType::Str => Parsed::ok(
            ExprView::Literal { value: token_at(tokens, pos).literal },
            1,
        ),
        TokenType::This => Parsed::ok(ExprView::This { keyword: token_at(tokens, pos) }, 1),
        TokenType::Super => {
            if !(kind_at(tokens, pos + 1) is Dot) {
                Parsed::missing(tokens, pos + 1, Expected::DotAfterSuper, 1)
            } else if !(kind_at(tokens, pos + 2) is Identifier) {
                Parsed::missing(tokens, pos + 2, Expected::SuperclassMethodName, 2)
            } else {
                Parsed::ok(
                    ExprView::Super {
                        keyword: token_at(tokens, pos),
                        method: token_at(tokens, pos + 2),
                    },
                    3,
                )
            }
        },
        TokenType::Identifier => Parsed::ok(ExprView::Variable { name: token_at(tokens, pos) }, 1),
        TokenType::LeftParen => {
            let inner = expression(tokens, pos + 1);
            match inner.result {
                Err(_) => inner.after(1),
                Ok(e) => {
                    if kind_at(tokens, pos + 1 + inner.used) is RightParen {
                        Parsed::ok(
                            ExprView::Grouping { expression: Box::new(e) },
                            1 + inner.used + 1,
                        )
                    } else {
                        Parsed::missing(
                            tokens,
                            pos + 1 + inner.used,
                            Expected::RightParenAfterExpression,
                            1 + inner.used,
                        )
                    }
                },
            }
        },
        _ => Parsed::missing(tokens, pos, Expected::Expression, 0),
    }
}

/// The call of `callee` whose `(` stands just before `pos`: its arguments
/// and its `)`.
#[verifier::opaque]
pub open spec fn finish_call(tokens: Seq<TokenView>, pos: nat, callee: ExprView) -> Parsed
    decreases remaining(tokens, pos), 20nat,
{
    let list = arguments(tokens, pos);
    let close = pos + list.used;
    match list.result {
        Err(e) => Parsed { result: Err(e), used: list.used },
        Ok(args) => {
            if kind_at(tokens, close) is RightParen {
                Parsed::ok(
                    ExprView::Call {
                        callee: Box::new(callee),
                        paren: token_at(tokens, close),
                        args,
                    },
                    list.used + 1,
                )
            } else {
                Parsed::missing(tokens, close, Expected::RightParenAfterArguments, list.used)
            }
        },
    }
}

/// The calls and property accesses that follow `callee`, applied to it from
/// left to right.
#[verifier::opaque]
pub open spec fn call_rest(tokens: Seq<TokenView>, pos: nat, callee: ExprView) -> Parsed
    decreases remaining(tokens, pos), 0nat,
{
    if kind_at(tokens, pos) is LeftParen {
        let made = finish_call(tokens, pos + 1, callee);
        match made.result {
            Err(_) => made.after(1),
            Ok(node) => call_rest(tokens, pos + 1 + made.used, node).after(1 + made.used),
        }
    } else if kind_at(tokens, pos) is Dot {
        if kind_at(tokens, pos + 1) is Identifier {
            let node = ExprView::Get { obj: Box::new(callee), name: token_at(tokens, pos + 1) };
            call_rest(tokens, pos + 2, node).after(2)
        } else {
            Parsed::missing(tokens, pos + 1, Expected::PropertyName, 1)
        }
    } else {
        Parsed::ok(callee, 0)
    }
}

/// The arguments of a call, from just after its `(` up to its `)`.
#[verifier::opaque]
pub open spec fn arguments(tokens: Seq<TokenView>, pos: nat) -> ParsedList
    decreases remaining(tokens, pos), 19nat,
{
    if kind_at(tokens, pos) is RightParen {
        ParsedList { result: Ok(Seq::empty()), used: 0 }
    } else {
        argument_list(tokens, pos, Seq::empty())
    }
}

/// One or more expressions separated by commas, added to `found`.
#[verifier::opaque]
pub open spec fn argument_list(tokens: Seq<TokenView>, pos: nat, found: Seq<ExprView>)
    -> ParsedList
    decreases remaining(tokens, pos), 18nat,
{
    let first = expression(tokens, pos);
    match first.result {
        Err(e) => ParsedList { result: Err(e), used: first.used },
        Ok(e) => {
            if kind_at(tokens, pos + first.used) is Comma {
                argument_list(tokens, pos + first.used + 1, found.push(e)).after(first.used + 1)
            } else {
                ParsedList { result: Ok(found.push(e)), used: first.used }
            }
        },
    }
}

/// `call`: a primary and what is applied to it.
#[verifier::opaque]
pub open spec fn call(tokens: Seq<TokenView>, pos: nat) -> Parsed
    decreases remaining(tokens, pos), 2nat,
{
    let head = primary(tokens, pos);
    match head.result {
        Err(_) => head,
        Ok(callee) => call_rest(tokens, pos + head.used, callee).after(head.used),
    }
}

/// `unary`: any number of prefix `!` and `-`, then a call.
#[verifier::opaque]
pub open spec fn unary(tokens: Seq<TokenView>, pos: nat) -> Parsed
    decreases remaining(tokens, pos), 3nat,
{
    if kind_at(tokens, pos) is Bang || kind_at(tokens, pos) is Minus {
        let operand = unary(tokens, pos + 1);
        match operand.result {
            Err(_) => operand.after(1),
            Ok(right) => Parsed::ok(
                ExprView::Unary { oper: token_at(tokens, pos), right: Box::new(right) },
                1 + operand.used,
            ),
        }
    } else {
        call(tokens, pos)
    }
}

/// An operand of `level`: an expression of the next tighter level.
#[verifier::opaque]
pub open spec fn operand(tokens: Seq<TokenView>, pos: nat, level: Level) -> Parsed
    decreases remaining(tokens, pos), 4 + 2 * level.rank(),
{
    match level {
        Level::Or => binary(tokens, pos, Level::And),
        Level::And => binary(tokens, pos, Level::Equality),
        Level::Equality => binary(tokens, pos, Level::Comparison),
        Level::Comparison => binary(tokens, pos, Level::Term),
        Level::Term => binary(tokens, pos, Level::Factor),
        Level::Factor => unary(tokens, pos),
    }
}

/// The operators of `level` and their right operands that follow `left`,
/// folded onto it from left to right.
#[verifier::opaque]
pub open spec fn binary_rest(tokens: Seq<TokenView>, pos: nat, level: Level, left: ExprView)
    -> Parsed
    decreases remaining(tokens, pos), 0nat,
{
    if level.has_operator(kind_at(tokens, pos)) {
        let right = operand(tokens, pos + 1, level);
        match right.result {
            Err(_) => right.after(1),
            Ok(r) => binary_rest(
                tokens,
                pos + 1 + right.used,
                level,
                level.join(left, token_at(tokens, pos), r),
            ).after(1 + right.used),
        }
    } else {
        Parsed::ok(left, 0)
    }
}

/// A chain of operands of `level` joined by its operators, grouped to the
/// left.
#[verifier::opaque]
pub open spec fn binary(tokens: Seq<TokenView>, pos: nat, level: Level) -> Parsed
    decreases remaining(tokens, pos), 5 + 2 * level.rank(),
{
    let first = operand(tokens, pos, level);
    match first.result {
        Err(_) => first,
        Ok(left) => binary_rest(tokens, pos + first.used, level, left).after(first.used),
    }
}

/// `assignment`: an `or` expression, or a variable or property given the
/// value of the assignment to the right of `=`.
#[verifier::opaque]
pub open spec fn assignment(tokens: Seq<TokenView>, pos: nat) -> Parsed
    decreases remaining(tokens, pos), 16nat,
{
    let left = binary(tokens, pos, Level::Or);
    match left.result {
        Err(_) => left,
        Ok(target) => {
            let equals = pos + left.used;
            if kind_at(tokens, equals) is Equal {
                let right = assignment(tokens, equals + 1);
                let used = left.used + 1 + right.used;
                match right.result {
                    Err(_) => right.after(left.used + 1),
                    Ok(value) => match target {
                        ExprView::Variable { name } => Parsed::ok(
                            ExprView::Assign { name, value: Box::new(value) },
                            used,
                        ),
                        ExprView::Get { obj, name } => Parsed::ok(
                            ExprView::SetProperty { obj, name, value: Box::new(value) },
                            used,
                        ),
                        _ => Parsed {
                            result: Err(
                                ParseErrorView::InvalidAssignmentTarget {
                                    line: line_of(tokens, equals),
                                },
                            ),
                            used,
                        },
                    },
                }
            } else {
                left
            }
        },
    }
}

/// `expression`: the entry production.
#[verifier::opaque]
pub open spec fn expression(tokens: Seq<TokenView>, pos: nat) -> Parsed
    decreases remaining(tokens, pos), 17nat,
{
    assignment(tokens, pos)
}

} // verus!
