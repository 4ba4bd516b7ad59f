//! Progress: the proof that a production that finds something takes at
//! least one token, and that none reads past the end-of-input token.

use vstd::prelude::*;

use crate::expr::ExprView;
use crate::grammar::{
    argument_list, arguments, assignment, binary, binary_rest, call, call_rest, expression,
    finish_call, kind_at, operand, primary, remaining, token_at, unary, Level,
};
use crate::token::{terminated, TokenView};

verus! {

/// Whether a production that starts on a token of a terminated sequence
/// and uses `used` tokens stops on a token of it.
pub open spec fn stays_inside(tokens: Seq<TokenView>, pos: nat, used: nat) -> bool {
    terminated(tokens) && pos < tokens.len() ==> pos + used < tokens.len()
}

/// In a terminated sequence, a token that is not the end-of-input token
/// has a token after it.
pub proof fn lemma_token_follows(tokens: Seq<TokenView>, pos: nat)
    requires
        terminated(tokens),
        pos < tokens.len(),
        !(kind_at(tokens, pos) is Eof),
    ensures
        pos + 1 < tokens.len(),
{
    assert(tokens.last() == tokens[tokens.len() - 1]);
}

/// A primary that is found takes at least one token, and none is read past
/// the end-of-input token.
pub proof fn lemma_primary_progress(tokens: Seq<TokenView>, pos: nat)
    ensures
        primary(tokens, pos).result is Ok ==> primary(tokens, pos).used >= 1,
        stays_inside(tokens, pos, primary(tokens, pos).used),
    decreases remaining(tokens, pos), 1nat,
{
    reveal(primary);
    reveal(expression);
    let found = primary(tokens, pos);
    if terminated(tokens) && pos < tokens.len() {
        if kind_at(tokens, pos) is Eof {
            assert(found.used == 0);
        } else {
            lemma_token_follows(tokens, pos);
            if kind_at(tokens, pos) is Super {
                if kind_at(tokens, pos + 1) is Dot {
                    lemma_token_follows(tokens, pos + 1);
                    if kind_at(tokens, pos + 2) is Identifier {
                        lemma_token_follows(tokens, pos + 2);
                    }
                }
                assert(pos + found.used < tokens.len());
            } else if kind_at(tokens, pos) is LeftParen {
                lemma_expression_progress(tokens, pos + 1);
                let inner = expression(tokens, pos + 1);
                if inner.result is Ok && kind_at(tokens, pos + 1 + inner.used) is RightParen {
                    lemma_token_follows(tokens, pos + 1 + inner.used);
                }
                assert(pos + found.used < tokens.len());
            } else {
                assert(found.used <= 1);
            }
        }
    } else if kind_at(tokens, pos) is LeftParen {
        lemma_expression_progress(tokens, pos + 1);
    }
}

/// What follows a callee is read without passing the end-of-input token.
pub proof fn lemma_call_rest_progress(tokens: Seq<TokenView>, pos: nat, callee: ExprView)
    ensures
        stays_inside(tokens, pos, call_rest(tokens, pos, callee).used),
    decreases remaining(tokens, pos), 0nat,
{
    reveal(call_rest);
    reveal(finish_call);
    if kind_at(tokens, pos) is LeftParen {
        lemma_finish_call_progress(tokens, pos + 1, callee);
        let made = finish_call(tokens, pos + 1, callee);
        if let Ok(node) = made.result {
            lemma_call_rest_progress(tokens, pos + 1 + made.used, node);
        }
    } else if kind_at(tokens, pos) is Dot {
        if kind_at(tokens, pos + 1) is Identifier {
            let node = ExprView::Get { obj: Box::new(callee), name: token_at(tokens, pos + 1) };
            lemma_call_rest_progress(tokens, pos + 2, node);
        }
    }
}

/// A call that is found takes at least its closing parenthesis.
pub proof fn lemma_finish_call_progress(tokens: Seq<TokenView>, pos: nat, callee: ExprView)
    ensures
        finish_call(tokens, pos, callee).result is Ok ==> finish_call(tokens, pos, callee).used
            >= 1,
        stays_inside(tokens, pos, finish_call(tokens, pos, callee).used),
    decreases remaining(tokens, pos), 20nat,
{
    reveal(finish_call);
    reveal(arguments);
    lemma_arguments_progress(tokens, pos);
    let list = arguments(tokens, pos);
    let close = pos + list.used;
    let made = finish_call(tokens, pos, callee);
    assert(made.used == list.used || made.used == list.used + 1);
    assert(made.used == list.used + 1 ==> kind_at(tokens, close) is RightParen);
    if terminated(tokens) && pos < tokens.len() {
        assert(close < tokens.len());
        if made.used == list.used + 1 {
            assert(!(kind_at(tokens, close) is Eof));
            assert(tokens.last() == tokens[tokens.len() - 1]);
            assert(close != tokens.len() - 1);
        }
    }
}

/// Arguments are read without passing the end-of-input token.
pub proof fn lemma_arguments_progress(tokens: Seq<TokenView>, pos: nat)
    ensures
        stays_inside(tokens, pos, arguments(tokens, pos).used),
    decreases remaining(tokens, pos), 19nat,
{
    reveal(arguments);
    reveal(argument_list);
    if !(kind_at(tokens, pos) is RightParen) {
        lemma_argument_list_progress(tokens, pos, Seq::empty());
    }
}

/// A list of arguments is read without passing the end-of-input token.
pub proof fn lemma_argument_list_progress(
    tokens: Seq<TokenView>,
    pos: nat,
    found: Seq<ExprView>,
)
    ensures
        stays_inside(tokens, pos, argument_list(tokens, pos, found).used),
    decreases remaining(tokens, pos), 18nat,
{
    reveal(argument_list);
    reveal(expression);
    lemma_expression_progress(tokens, pos);
    let first = expression(tokens, pos);
    if let Ok(e) = first.result {
        if kind_at(tokens, pos + first.used) is Comma {
            lemma_argument_list_progress(tokens, pos + first.used + 1, found.push(e));
        }
    }
}

/// A call expression that is found takes at least one token.
pub proof fn lemma_call_progress(tokens: Seq<TokenView>, pos: nat)
    ensures
        call(tokens, pos).result is Ok ==> call(tokens, pos).used >= 1,
        stays_inside(tokens, pos, call(tokens, pos).used),
    decreases remaining(tokens, pos), 2nat,
{
    reveal(call);
    reveal(primary);
    reveal(call_rest);
    lemma_primary_progress(tokens, pos);
    let head = primary(tokens, pos);
    if let Ok(callee) = head.result {
        lemma_call_rest_progress(tokens, pos + head.used, callee);
    }
}

/// A unary expression that is found takes at least one token.
pub proof fn lemma_unary_progress(tokens: Seq<TokenView>, pos: nat)
    ensures
        unary(tokens, pos).result is Ok ==> unary(tokens, pos).used >= 1,
        stays_inside(tokens, pos, unary(tokens, pos).used),
    decreases remaining(tokens, pos), 3nat,
{
    reveal(unary);
    reveal(call);
    if kind_at(tokens, pos) is Bang || kind_at(tokens, pos) is Minus {
        lemma_unary_progress(tokens, pos + 1);
    } else {
        lemma_call_progress(tokens, pos);
    }
}

/// An operand that is found takes at least one token.
pub proof fn lemma_operand_progress(tokens: Seq<TokenView>, pos: nat, level: Level)
    ensures
        operand(tokens, pos, level).result is Ok ==> operand(tokens, pos, level).used >= 1,
        stays_inside(tokens, pos, operand(tokens, pos, level).used),
    decreases remaining(tokens, pos), 4 + 2 * level.rank(),
{
    reveal(operand);
    reveal(binary);
    reveal(unary);
    match level {
        Level::Or => lemma_binary_progress(tokens, pos, Level::And),
        Level::And => lemma_binary_progress(tokens, pos, Level::Equality),
        Level::Equality => lemma_binary_progress(tokens, pos, Level::Comparison),
        Level::Comparison => lemma_binary_progress(tokens, pos, Level::Term),
        Level::Term => lemma_binary_progress(tokens, pos, Level::Factor),
        Level::Factor => lemma_unary_progress(tokens, pos),
    }
}

/// The operators and operands after a left operand are read without
/// passing the end-of-input token.
pub proof fn lemma_binary_rest_progress(
    tokens: Seq<TokenView>,
    pos: nat,
    level: Level,
    left: ExprView,
)
    ensures
        stays_inside(tokens, pos, binary_rest(tokens, pos, level, left).used),
    decreases remaining(tokens, pos), 0nat,
{
    reveal(binary_rest);
    reveal(operand);
    if level.has_operator(kind_at(tokens, pos)) {
        lemma_operand_progress(tokens, pos + 1, level);
        let right = operand(tokens, pos + 1, level);
        if let Ok(r) = right.result {
            lemma_binary_rest_progress(
                tokens,
                pos + 1 + right.used,
                level,
                level.join(left, token_at(tokens, pos), r),
            );
        }
    }
}

/// A chain of one level that is found takes at least one token.
pub proof fn lemma_binary_progress(tokens: Seq<TokenView>, pos: nat, level: Level)
    ensures
        binary(tokens, pos, level).result is Ok ==> binary(tokens, pos, level).used >= 1,
        stays_inside(tokens, pos, binary(tokens, pos, level).used),
    decreases remaining(tokens, pos), 5 + 2 * level.rank(),
{
    reveal(binary);
    reveal(operand);
    reveal(binary_rest);
    lemma_operand_progress(tokens, pos, level);
    let first = operand(tokens, pos, level);
    if let Ok(left) = first.result {
        lemma_binary_rest_progress(tokens, pos + first.used, level, left);
    }
}

/// An assignment that is found takes at least one token.
pub proof fn lemma_assignment_progress(tokens: Seq<TokenView>, pos: nat)
    ensures
        assignment(tokens, pos).result is Ok ==> assignment(tokens, pos).used >= 1,
        stays_inside(tokens, pos, assignment(tokens, pos).used),
    decreases remaining(tokens, pos), 16nat,
{
    reveal(assignment);
    reveal(binary);
    lemma_binary_progress(tokens, pos, Level::Or);
    let left = binary(tokens, pos, Level::Or);
    if left.result is Ok && kind_at(tokens, pos + left.used) is Equal {
        lemma_assignment_progress(tokens, pos + left.used + 1);
    }
}

/// An expression that is found takes at least one token, and whether one
/// is found or not, parsing stops on a token of a terminated sequence: the
/// end-of-input token is never passed.
pub proof fn lemma_expression_progress(tokens: Seq<TokenView>, pos: nat)
    ensures
        expression(tokens, pos).result is Ok ==> expression(tokens, pos).used >= 1,
        stays_inside(tokens, pos, expression(tokens, pos).used),
    decreases remaining(tokens, pos), 17nat,
{
    reveal(expression);
    reveal(assignment);
    lemma_assignment_progress(tokens, pos);
}

} // verus!
