//! How far an expression reaches: the proof that the grammar takes every
//! token that can go on with the expression it is finding, so that the
//! token after a tree that was found is none that could extend it.

use vstd::prelude::*;

use crate::expr::ExprView;
use crate::grammar::{
    assignment, binary, binary_rest, call, call_rest, expression, finish_call, kind_at, operand,
    primary, remaining, token_at, unary, Level,
};
use crate::precedence::level_of;
use crate::token::{TokenType, TokenView};

verus! {

/// Whether `tt` goes on with a call expression: it opens an argument list
/// or a property access.
pub open spec fn is_postfix(tt: TokenType) -> bool {
    tt is LeftParen || tt is Dot
}

/// Whether `tt` can stand after a finished chain of `level`: it is no
/// postfix token, and if it is a binary operator, then one of a looser
/// level.
pub open spec fn ends_level(tt: TokenType, level: Level) -> bool {
    &&& !is_postfix(tt)
    &&& level_of(tt) matches Some(l) ==> l.rank() > level.rank()
}

/// Whether `tt` can stand after a finished operand of `level`: it is no
/// postfix token, and if it is a binary operator, then one of `level` or
/// of a looser level.
pub open spec fn ends_operand(tt: TokenType, level: Level) -> bool {
    &&& !is_postfix(tt)
    &&& level_of(tt) matches Some(l) ==> l.rank() >= level.rank()
}

/// Whether `tt` can stand after a finished expression: it is no postfix
/// token, no binary operator and no `=`.
pub open spec fn ends_expression(tt: TokenType) -> bool {
    &&& !is_postfix(tt)
    &&& level_of(tt) is None
    &&& !(tt is Equal)
}

/// After what was applied to a callee, no postfix token follows.
pub proof fn lemma_call_rest_extent(tokens: Seq<TokenView>, pos: nat, callee: ExprView)
    ensures
        call_rest(tokens, pos, callee).result is Ok ==> !is_postfix(
            kind_at(tokens, pos + call_rest(tokens, pos, callee).used),
        ),
    decreases remaining(tokens, pos),
{
    reveal(call_rest);
    if kind_at(tokens, pos) is LeftParen {
        let made = finish_call(tokens, pos + 1, callee);
        if let Ok(node) = made.result {
            lemma_call_rest_extent(tokens, pos + 1 + made.used, node);
        }
    } else if kind_at(tokens, pos) is Dot {
        if kind_at(tokens, pos + 1) is Identifier {
            let node = ExprView::Get { obj: Box::new(callee), name: token_at(tokens, pos + 1) };
            lemma_call_rest_extent(tokens, pos + 2, node);
        }
    }
}

/// After a call expression, no postfix token follows.
pub proof fn lemma_call_extent(tokens: Seq<TokenView>, pos: nat)
    ensures
        call(tokens, pos).result is Ok ==> !is_postfix(
            kind_at(tokens, pos + call(tokens, pos).used),
        ),
{
    reveal(call);
    reveal(call_rest);
    let head = primary(tokens, pos);
    if let Ok(callee) = head.result {
        lemma_call_rest_extent(tokens, pos + head.used, callee);
    }
}

/// After a unary expression, no postfix token follows.
pub proof fn lemma_unary_extent(tokens: Seq<TokenView>, pos: nat)
    ensures
        unary(tokens, pos).result is Ok ==> !is_postfix(
            kind_at(tokens, pos + unary(tokens, pos).used),
        ),
    decreases remaining(tokens, pos),
{
    reveal(unary);
    reveal(call);
    if kind_at(tokens, pos) is Bang || kind_at(tokens, pos) is Minus {
        lemma_unary_extent(tokens, pos + 1);
    } else {
        lemma_call_extent(tokens, pos);
    }
}

/// After an operand of a level, nothing follows that would go on with it.
pub proof fn lemma_operand_extent(tokens: Seq<TokenView>, pos: nat, level: Level)
    ensures
        operand(tokens, pos, level).result is Ok ==> ends_operand(
            kind_at(tokens, pos + operand(tokens, pos, level).used),
            level,
        ),
    decreases remaining(tokens, pos), 4 + 2 * level.rank(),
{
    reveal(operand);
    reveal(binary);
    reveal(unary);
    match level {
        Level::Or => lemma_binary_extent(tokens, pos, Level::And),
        Level::And => lemma_binary_extent(tokens, pos, Level::Equality),
        Level::Equality => lemma_binary_extent(tokens, pos, Level::Comparison),
        Level::Comparison => lemma_binary_extent(tokens, pos, Level::Term),
        Level::Term => lemma_binary_extent(tokens, pos, Level::Factor),
        Level::Factor => lemma_unary_extent(tokens, pos),
    }
}

/// After the operators and operands folded onto a left side, nothing
/// follows that would go on with the chain.
pub proof fn lemma_binary_rest_extent(
    tokens: Seq<TokenView>,
    pos: nat,
    level: Level,
    left: ExprView,
)
    requires
        ends_operand(kind_at(tokens, pos), level),
    ensures
        binary_rest(tokens, pos, level, left).result is Ok ==> ends_level(
            kind_at(tokens, pos + binary_rest(tokens, pos, level, left).used),
            level,
        ),
    decreases remaining(tokens, pos), 0nat,
{
    reveal(binary_rest);
    reveal(operand);
    if level.has_operator(kind_at(tokens, pos)) {
        lemma_operand_extent(tokens, pos + 1, level);
        let right = operand(tokens, pos + 1, level);
        if let Ok(r) = right.result {
            lemma_binary_rest_extent(
                tokens,
                pos + 1 + right.used,
                level,
                level.join(left, token_at(tokens, pos), r),
            );
        }
    }
}

/// After a chain of one level, nothing follows that would go on with it.
pub proof fn lemma_binary_extent(tokens: Seq<TokenView>, pos: nat, level: Level)
    ensures
        binary(tokens, pos, level).result is Ok ==> ends_level(
            kind_at(tokens, pos + binary(tokens, pos, level).used),
            level,
        ),
    decreases remaining(tokens, pos), 5 + 2 * level.rank(),
{
    reveal(binary);
    reveal(operand);
    reveal(binary_rest);
    lemma_operand_extent(tokens, pos, level);
    let first = operand(tokens, pos, level);
    if let Ok(left) = first.result {
        lemma_binary_rest_extent(tokens, pos + first.used, level, left);
    }
}

/// After an assignment, nothing follows that would go on with it.
pub proof fn lemma_assignment_extent(tokens: Seq<TokenView>, pos: nat)
    ensures
        assignment(tokens, pos).result is Ok ==> ends_expression(
            kind_at(tokens, pos + assignment(tokens, pos).used),
        ),
    decreases remaining(tokens, pos),
{
    reveal(assignment);
    reveal(binary);
    lemma_binary_extent(tokens, pos, Level::Or);
    let left = binary(tokens, pos, Level::Or);
    if left.result is Ok && kind_at(tokens, pos + left.used) is Equal {
        lemma_assignment_extent(tokens, pos + left.used + 1);
    }
}

/// The expression found is the longest there is: the token after it opens
/// no argument list and no property access, and is no binary operator and
/// no `=`.
pub proof fn lemma_expression_extent(tokens: Seq<TokenView>, pos: nat)
    ensures
        expression(tokens, pos).result is Ok ==> ends_expression(
            kind_at(tokens, pos + expression(tokens, pos).used),
        ),
{
    reveal(expression);
    reveal(assignment);
    lemma_assignment_extent(tokens, pos);
}

} // verus!
