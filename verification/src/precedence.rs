//! Precedence and associativity, said of the trees themselves: how tightly
//! each kind of node binds, what it means for a tree to be grouped by that,
//! and the proof that every tree the grammar finds is.

use vstd::prelude::*;

use crate::expr::ExprView;
use crate::grammar::{
    argument_list, arguments, assignment, binary, binary_rest, call, call_rest, expression,
    finish_call, kind_at, operand, primary, remaining, token_at, unary, Level,
};
use crate::token::{TokenType, TokenView};

verus! {

/// How tightly an operator of `level` binds; a larger number binds tighter.
pub open spec fn level_binding(level: Level) -> nat {
    (6 - level.rank()) as nat
}

/// The level that `tt` is an operator of, if it is a binary operator.
pub open spec fn level_of(tt: TokenType) -> Option<Level> {
    if Level::Or.has_operator(tt) {
        Some(Level::Or)
    } else if Level::And.has_operator(tt) {
        Some(Level::And)
    } else if Level::Equality.has_operator(tt) {
        Some(Level::Equality)
    } else if Level::Comparison.has_operator(tt) {
        Some(Level::Comparison)
    } else if Level::Term.has_operator(tt) {
        Some(Level::Term)
    } else if Level::Factor.has_operator(tt) {
        Some(Level::Factor)
    } else {
        None
    }
}

/// How tightly the root of `e` binds: 0 for an assignment, 1 to 6 for the
/// binary operators from `or` to `*`, 7 for a prefix operator, 8 for a
/// call or a property access, 9 for a primary.
pub open spec fn binding(e: ExprView) -> nat {
    match e {
        ExprView::Assign { .. } | ExprView::SetProperty { .. } => 0,
        ExprView::Binary { oper, .. } | ExprView::Logical { oper, .. } => match level_of(
            oper.token_type,
        ) {
            Some(level) => level_binding(level),
            None => 0,
        },
        ExprView::Unary { .. } => 7,
        ExprView::Call { .. } | ExprView::Get { .. } => 8,
        ExprView::Grouping { .. } | ExprView::Literal { .. } | ExprView::Super { .. }
        | ExprView::This { .. } | ExprView::Variable { .. } => 9,
    }
}

/// Whether `e` is grouped as precedence and associativity demand, at every
/// node:
/// - the operator of a binary or logical node is one of a level, logical
///   exactly for `or` and `and`; its left operand binds at least as tightly
///   as the node and its right operand more tightly, so that equal
///   operators group to the left and tighter ones below looser ones;
/// - the operand of a prefix operator is a prefix expression or tighter;
/// - what is called, or asked for a property, is a call, an access or a
///   primary;
/// - the value of an assignment is any expression, so that assignments
///   group to the right.
pub open spec fn well_grouped(e: ExprView) -> bool
    decreases e,
{
    match e {
        ExprView::Assign { name, value } => well_grouped(*value),
        ExprView::Binary { left, oper, right } => {
            &&& level_of(oper.token_type) matches Some(level)
            &&& !level.is_logical()
            &&& well_grouped(*left)
            &&& well_grouped(*right)
            &&& binding(*left) >= level_binding(level)
            &&& binding(*right) > level_binding(level)
        },
        ExprView::Call { callee, paren, args } => {
            &&& well_grouped(*callee)
            &&& binding(*callee) >= 8
            &&& forall|i: int| 0 <= i < args.len() ==> well_grouped(#[trigger] args[i])
        },
        ExprView::Get { obj, name } => well_grouped(*obj) && binding(*obj) >= 8,
        ExprView::Grouping { expression } => well_grouped(*expression),
        ExprView::Literal { value } => true,
        ExprView::Logical { left, oper, right } => {
            &&& level_of(oper.token_type) matches Some(level)
            &&& level.is_logical()
            &&& well_grouped(*left)
            &&& well_grouped(*right)
            &&& binding(*left) >= level_binding(level)
            &&& binding(*right) > level_binding(level)
        },
        ExprView::SetProperty { obj, name, value } => {
            &&& well_grouped(*obj)
            &&& binding(*obj) >= 8
            &&& well_grouped(*value)
        },
        ExprView::Super { keyword, method } => true,
        ExprView::This { keyword } => true,
        ExprView::Unary { oper, right } => {
            &&& oper.token_type is Bang || oper.token_type is Minus
            &&& well_grouped(*right)
            &&& binding(*right) >= 7
        },
        ExprView::Variable { name } => true,
    }
}

/// Whether every expression of `list` is well grouped.
pub open spec fn all_well_grouped(list: Seq<ExprView>) -> bool {
    forall|i: int| 0 <= i < list.len() ==> well_grouped(#[trigger] list[i])
}

/// The operators of a level are operators of no other level.
pub proof fn lemma_level_of(level: Level, tt: TokenType)
    requires
        level.has_operator(tt),
    ensures
        level_of(tt) == Some(level),
{
}

/// A node joined at a level is well grouped when its operands are and bind
/// tightly enough, and it binds as its level does.
pub proof fn lemma_join_grouped(level: Level, left: ExprView, oper: TokenView, right: ExprView)
    requires
        level.has_operator(oper.token_type),
        well_grouped(left),
        well_grouped(right),
        binding(left) >= level_binding(level),
        binding(right) > level_binding(level),
    ensures
        well_grouped(level.join(left, oper, right)),
        binding(level.join(left, oper, right)) == level_binding(level),
{
    lemma_level_of(level, oper.token_type);
}

/// A primary is well grouped and binds tightest.
pub proof fn lemma_primary_grouped(tokens: Seq<TokenView>, pos: nat)
    ensures
        primary(tokens, pos).result matches Ok(e) ==> well_grouped(e) && binding(e) == 9,
    decreases remaining(tokens, pos), 1nat,
{
    reveal(primary);
    reveal(expression);
    if kind_at(tokens, pos) is LeftParen {
        lemma_expression_grouped(tokens, pos + 1);
    }
}

/// Calls and accesses applied to a well-grouped callee are well grouped.
pub proof fn lemma_call_rest_grouped(tokens: Seq<TokenView>, pos: nat, callee: ExprView)
    requires
        well_grouped(callee),
        binding(callee) >= 8,
    ensures
        call_rest(tokens, pos, callee).result matches Ok(e) ==> well_grouped(e) && binding(e)
            >= 8,
    decreases remaining(tokens, pos), 0nat,
{
    reveal(call_rest);
    reveal(finish_call);
    if kind_at(tokens, pos) is LeftParen {
        lemma_finish_call_grouped(tokens, pos + 1, callee);
        let made = finish_call(tokens, pos + 1, callee);
        if let Ok(node) = made.result {
            lemma_call_rest_grouped(tokens, pos + 1 + made.used, node);
        }
    } else if kind_at(tokens, pos) is Dot {
        if kind_at(tokens, pos + 1) is Identifier {
            let node = ExprView::Get { obj: Box::new(callee), name: token_at(tokens, pos + 1) };
            lemma_call_rest_grouped(tokens, pos + 2, node);
        }
    }
}

/// A call of a well-grouped callee is well grouped.
pub proof fn lemma_finish_call_grouped(tokens: Seq<TokenView>, pos: nat, callee: ExprView)
    requires
        well_grouped(callee),
        binding(callee) >= 8,
    ensures
        finish_call(tokens, pos, callee).result matches Ok(e) ==> well_grouped(e) && binding(e)
            == 8,
    decreases remaining(tokens, pos), 20nat,
{
    reveal(finish_call);
    reveal(arguments);
    lemma_arguments_grouped(tokens, pos);
}

/// Every argument of a call is well grouped.
pub proof fn lemma_arguments_grouped(tokens: Seq<TokenView>, pos: nat)
    ensures
        arguments(tokens, pos).result matches Ok(list) ==> all_well_grouped(list),
    decreases remaining(tokens, pos), 19nat,
{
    reveal(arguments);
    reveal(argument_list);
    if !(kind_at(tokens, pos) is RightParen) {
        lemma_argument_list_grouped(tokens, pos, Seq::empty());
    }
}

/// Further arguments after well-grouped ones are well grouped.
pub proof fn lemma_argument_list_grouped(
    tokens: Seq<TokenView>,
    pos: nat,
    found: Seq<ExprView>,
)
    requires
        all_well_grouped(found),
    ensures
        argument_list(tokens, pos, found).result matches Ok(list) ==> all_well_grouped(list),
    decreases remaining(tokens, pos), 18nat,
{
    reveal(argument_list);
    reveal(expression);
    lemma_expression_grouped(tokens, pos);
    let first = expression(tokens, pos);
    if let Ok(e) = first.result {
        let more = found.push(e);
        assert forall|i: int| 0 <= i < more.len() implies well_grouped(#[trigger] more[i]) by {
            if i < found.len() {
                assert(more[i] == found[i]);
            }
        }
        if kind_at(tokens, pos + first.used) is Comma {
            lemma_argument_list_grouped(tokens, pos + first.used + 1, more);
        }
    }
}

/// A call expression is well grouped and binds as a call or tighter.
pub proof fn lemma_call_grouped(tokens: Seq<TokenView>, pos: nat)
    ensures
        call(tokens, pos).result matches Ok(e) ==> well_grouped(e) && binding(e) >= 8,
    decreases remaining(tokens, pos), 2nat,
{
    reveal(call);
    reveal(primary);
    reveal(call_rest);
    lemma_primary_grouped(tokens, pos);
    let head = primary(tokens, pos);
    if let Ok(callee) = head.result {
        lemma_call_rest_grouped(tokens, pos + head.used, callee);
    }
}

/// A unary expression is well grouped and binds as a prefix operator or
/// tighter.
pub proof fn lemma_unary_grouped(tokens: Seq<TokenView>, pos: nat)
    ensures
        unary(tokens, pos).result matches Ok(e) ==> well_grouped(e) && binding(e) >= 7,
    decreases remaining(tokens, pos), 3nat,
{
    reveal(unary);
    reveal(call);
    if kind_at(tokens, pos) is Bang || kind_at(tokens, pos) is Minus {
        lemma_unary_grouped(tokens, pos + 1);
    } else {
        lemma_call_grouped(tokens, pos);
    }
}

/// An operand of a level is well grouped and binds tighter than the level.
pub proof fn lemma_operand_grouped(tokens: Seq<TokenView>, pos: nat, level: Level)
    ensures
        operand(tokens, pos, level).result matches Ok(e) ==> well_grouped(e) && binding(e)
            > level_binding(level),
    decreases remaining(tokens, pos), 4 + 2 * level.rank(),
{
    reveal(operand);
    reveal(binary);
    reveal(unary);
    match level {
        Level::Or => lemma_binary_grouped(tokens, pos, Level::And),
        Level::And => lemma_binary_grouped(tokens, pos, Level::Equality),
        Level::Equality => lemma_binary_grouped(tokens, pos, Level::Comparison),
        Level::Comparison => lemma_binary_grouped(tokens, pos, Level::Term),
        Level::Term => lemma_binary_grouped(tokens, pos, Level::Factor),
        Level::Factor => lemma_unary_grouped(tokens, pos),
    }
}

/// Operators and operands folded onto a well-grouped left side give a
/// well-grouped tree of the same level or tighter.
pub proof fn lemma_binary_rest_grouped(
    tokens: Seq<TokenView>,
    pos: nat,
    level: Level,
    left: ExprView,
)
    requires
        well_grouped(left),
        binding(left) >= level_binding(level),
    ensures
        binary_rest(tokens, pos, level, left).result matches Ok(e) ==> well_grouped(e)
            && binding(e) >= level_binding(level),
    decreases remaining(tokens, pos), 0nat,
{
    reveal(binary_rest);
    reveal(operand);
    if level.has_operator(kind_at(tokens, pos)) {
        lemma_operand_grouped(tokens, pos + 1, level);
        let right = operand(tokens, pos + 1, level);
        if let Ok(r) = right.result {
            lemma_join_grouped(level, left, token_at(tokens, pos), r);
            lemma_binary_rest_grouped(
                tokens,
                pos + 1 + right.used,
                level,
                level.join(left, token_at(tokens, pos), r),
            );
        }
    }
}

/// A chain of one level is well grouped and binds as the level or tighter.
pub proof fn lemma_binary_grouped(tokens: Seq<TokenView>, pos: nat, level: Level)
    ensures
        binary(tokens, pos, level).result matches Ok(e) ==> well_grouped(e) && binding(e)
            >= level_binding(level),
    decreases remaining(tokens, pos), 5 + 2 * level.rank(),
{
    reveal(binary);
    reveal(operand);
    reveal(binary_rest);
    lemma_operand_grouped(tokens, pos, level);
    let first = operand(tokens, pos, level);
    if let Ok(left) = first.result {
        lemma_binary_rest_grouped(tokens, pos + first.used, level, left);
    }
}

/// An assignment is well grouped.
pub proof fn lemma_assignment_grouped(tokens: Seq<TokenView>, pos: nat)
    ensures
        assignment(tokens, pos).result matches Ok(e) ==> well_grouped(e),
    decreases remaining(tokens, pos), 16nat,
{
    reveal(assignment);
    reveal(binary);
    lemma_binary_grouped(tokens, pos, Level::Or);
    let left = binary(tokens, pos, Level::Or);
    if left.result is Ok && kind_at(tokens, pos + left.used) is Equal {
        lemma_assignment_grouped(tokens, pos + left.used + 1);
    }
}

/// Precedence and associativity hold of every tree that is found: tighter
/// operators stand below looser ones, operators of one level group to the
/// left, and assignments to the right.
pub proof fn lemma_expression_grouped(tokens: Seq<TokenView>, pos: nat)
    ensures
        expression(tokens, pos).result matches Ok(e) ==> well_grouped(e),
    decreases remaining(tokens, pos), 17nat,
{
    reveal(expression);
    reveal(assignment);
    lemma_assignment_grouped(tokens, pos);
}

} // verus!
