//! Reading a tree in the tokens: where each node of an expression stands
//! in a sequence of tokens, and the proof that the tree the grammar finds
//! in a stretch of tokens stands there and covers it exactly: no token is
//! dropped, added, moved or changed.

use vstd::prelude::*;

use crate::expr::ExprView;
use crate::grammar::{
    argument_list, arguments, assignment, binary, binary_rest, call, call_rest, expression,
    finish_call, kind_at, operand, primary, remaining, token_at, unary, Level,
};
use crate::token::{LiteralView, TokenType, TokenView};

verus! {

/// The number of tokens that `e` is written with.
pub open spec fn width(e: ExprView) -> nat
    decreases e, 0nat,
{
    match e {
        ExprView::Assign { name, value } => 2 + width(*value),
        ExprView::Binary { left, oper, right } => width(*left) + 1 + width(*right),
        ExprView::Call { callee, paren, args } => width(*callee) + 1 + width_list(args) + 1,
        ExprView::Get { obj, name } => width(*obj) + 2,
        ExprView::Grouping { expression } => width(*expression) + 2,
        ExprView::Literal { value } => 1,
        ExprView::Logical { left, oper, right } => width(*left) + 1 + width(*right),
        ExprView::SetProperty { obj, name, value } => width(*obj) + 3 + width(*value),
        ExprView::Super { keyword, method } => 3,
        ExprView::This { keyword } => 1,
        ExprView::Unary { oper, right } => 1 + width(*right),
        ExprView::Variable { name } => 1,
    }
}

/// The number of tokens that the arguments `found` and a comma after each
/// of them are written with.
pub open spec fn width_before(found: Seq<ExprView>) -> nat
    decreases found, 0nat,
{
    if found.len() == 0 {
        0
    } else {
        width_before(found.drop_last()) + width(found.last()) + 1
    }
}

/// The number of tokens that a list of arguments is written with: the
/// arguments, and a comma between each two.
pub open spec fn width_list(args: Seq<ExprView>) -> nat
    decreases args, 1nat,
{
    if args.len() == 0 {
        0
    } else {
        (width_before(args) - 1) as nat
    }
}

/// Whether the token at `pos` is `t`.
pub open spec fn holds(tokens: Seq<TokenView>, pos: nat, t: TokenView) -> bool {
    pos < tokens.len() && token_at(tokens, pos) == t
}

/// Whether the token at `pos` writes the literal `value`.
pub open spec fn literal_at(tokens: Seq<TokenView>, pos: nat, value: Option<LiteralView>)
    -> bool {
    match kind_at(tokens, pos) {
        TokenType::True => value == Some(LiteralView::Boolean(true)),
        TokenType::False => value == Some(LiteralView::Boolean(false)),
        TokenType::Nil => value is None,
        TokenType::Number | TokenType::Str => value == token_at(tokens, pos).literal,
        _ => false,
    }
}

/// Whether `e` stands in `tokens` from `pos` on: every token that `e`
/// holds is the token at its place, and the parentheses, commas, dots and
/// `=` that the shape of `e` implies stand between them.
pub open spec fn stands_at(e: ExprView, tokens: Seq<TokenView>, pos: nat) -> bool
    decreases e,
{
    match e {
        ExprView::Assign { name, value } => {
            &&& holds(tokens, pos, name)
            &&& name.token_type is Identifier
            &&& kind_at(tokens, pos + 1) is Equal
            &&& stands_at(*value, tokens, pos + 2)
        },
        ExprView::Binary { left, oper, right } => {
            &&& stands_at(*left, tokens, pos)
            &&& holds(tokens, pos + width(*left), oper)
            &&& stands_at(*right, tokens, pos + width(*left) + 1)
        },
        ExprView::Call { callee, paren, args } => {
            &&& stands_at(*callee, tokens, pos)
            &&& kind_at(tokens, pos + width(*callee)) is LeftParen
            &&& list_stands_at(args, tokens, pos + width(*callee) + 1)
            &&& holds(tokens, pos + width(*callee) + 1 + width_list(args), paren)
            &&& paren.token_type is RightParen
        },
        ExprView::Get { obj, name } => {
            &&& stands_at(*obj, tokens, pos)
            &&& kind_at(tokens, pos + width(*obj)) is Dot
            &&& holds(tokens, pos + width(*obj) + 1, name)
            &&& name.token_type is Identifier
        },
        ExprView::Grouping { expression } => {
            &&& kind_at(tokens, pos) is LeftParen
            &&& stands_at(*expression, tokens, pos + 1)
            &&& kind_at(tokens, pos + 1 + width(*expression)) is RightParen
        },
        ExprView::Literal { value } => literal_at(tokens, pos, value),
        ExprView::Logical { left, oper, right } => {
            &&& stands_at(*left, tokens, pos)
            &&& holds(tokens, pos + width(*left), oper)
            &&& stands_at(*right, tokens, pos + width(*left) + 1)
        },
        ExprView::SetProperty { obj, name, value } => {
            &&& stands_at(*obj, tokens, pos)
            &&& kind_at(tokens, pos + width(*obj)) is Dot
            &&& holds(tokens, pos + width(*obj) + 1, name)
            &&& name.token_type is Identifier
            &&& kind_at(tokens, pos + width(*obj) + 2) is Equal
            &&& stands_at(*value, tokens, pos + width(*obj) + 3)
        },
        ExprView::Super { keyword, method } => {
            &&& holds(tokens, pos, keyword)
            &&& keyword.token_type is Super
            &&& kind_at(tokens, pos + 1) is Dot
            &&& holds(tokens, pos + 2, method)
            &&& method.token_type is Identifier
        },
        ExprView::This { keyword } => holds(tokens, pos, keyword) && keyword.token_type is This,
        ExprView::Unary { oper, right } => {
            &&& holds(tokens, pos, oper)
            &&& stands_at(*right, tokens, pos + 1)
        },
        ExprView::Variable { name } => holds(tokens, pos, name) && name.token_type
            is Identifier,
    }
}

/// Whether the arguments `args` stand in `tokens` from `pos` on, one after
/// the other with a comma between each two.
pub open spec fn list_stands_at(args: Seq<ExprView>, tokens: Seq<TokenView>, pos: nat) -> bool
    decreases args,
{
    if args.len() == 0 {
        true
    } else {
        let before = args.drop_last();
        &&& list_stands_at(before, tokens, pos)
        &&& before.len() > 0 ==> kind_at(tokens, (pos + width_before(before) - 1) as nat)
            is Comma
        &&& stands_at(args.last(), tokens, pos + width_before(before))
    }
}

/// A primary stands where it was found and covers the tokens it used.
pub proof fn lemma_primary_reads(tokens: Seq<TokenView>, pos: nat)
    ensures
        primary(tokens, pos).result matches Ok(e) ==> stands_at(e, tokens, pos) && width(e)
            == primary(tokens, pos).used,
    decreases remaining(tokens, pos), 1nat,
{
    reveal(primary);
    reveal(expression);
    if kind_at(tokens, pos) is LeftParen {
        lemma_expression_reads(tokens, pos + 1);
    }
}

/// What is applied to a callee that stands at `start` makes a tree that
/// stands at `start` and covers the callee and the tokens used after it.
pub proof fn lemma_call_rest_reads(
    tokens: Seq<TokenView>,
    start: nat,
    pos: nat,
    callee: ExprView,
)
    requires
        stands_at(callee, tokens, start),
        pos == start + width(callee),
    ensures
        call_rest(tokens, pos, callee).result matches Ok(e) ==> stands_at(e, tokens, start)
            && width(e) == width(callee) + call_rest(tokens, pos, callee).used,
    decreases remaining(tokens, pos), 0nat,
{
    reveal(call_rest);
    reveal(finish_call);
    if kind_at(tokens, pos) is LeftParen {
        lemma_finish_call_reads(tokens, start, pos + 1, callee);
        let made = finish_call(tokens, pos + 1, callee);
        if let Ok(node) = made.result {
            lemma_call_rest_reads(tokens, start, pos + 1 + made.used, node);
        }
    } else if kind_at(tokens, pos) is Dot {
        if kind_at(tokens, pos + 1) is Identifier {
            let node = ExprView::Get { obj: Box::new(callee), name: token_at(tokens, pos + 1) };
            lemma_call_rest_reads(tokens, start, pos + 2, node);
        }
    }
}

/// A call of a callee that stands at `start`, with its `(` just before
/// `pos`, stands at `start` and covers the callee, the `(` and the tokens
/// used from `pos` on.
pub proof fn lemma_finish_call_reads(
    tokens: Seq<TokenView>,
    start: nat,
    pos: nat,
    callee: ExprView,
)
    requires
        stands_at(callee, tokens, start),
        pos == start + width(callee) + 1,
        kind_at(tokens, start + width(callee)) is LeftParen,
    ensures
        finish_call(tokens, pos, callee).result matches Ok(e) ==> stands_at(e, tokens, start)
            && width(e) == width(callee) + 1 + finish_call(tokens, pos, callee).used,
    decreases remaining(tokens, pos), 20nat,
{
    reveal(finish_call);
    reveal(arguments);
    lemma_arguments_reads(tokens, pos);
}

/// The arguments of a call stand where they were found and cover the
/// tokens used.
pub proof fn lemma_arguments_reads(tokens: Seq<TokenView>, pos: nat)
    ensures
        arguments(tokens, pos).result matches Ok(list) ==> list_stands_at(list, tokens, pos)
            && width_list(list) == arguments(tokens, pos).used,
    decreases remaining(tokens, pos), 19nat,
{
    reveal(arguments);
    reveal(argument_list);
    if !(kind_at(tokens, pos) is RightParen) {
        lemma_argument_list_reads(tokens, pos, pos, Seq::empty());
    }
}

/// Further arguments, found from `pos` on after those of `found`, which
/// stand from `start` on, make a list that stands from `start` on and
/// ends where the last token used ends.
pub proof fn lemma_argument_list_reads(
    tokens: Seq<TokenView>,
    start: nat,
    pos: nat,
    found: Seq<ExprView>,
)
    requires
        list_stands_at(found, tokens, start),
        pos == start + width_before(found),
        found.len() > 0 ==> kind_at(tokens, (pos - 1) as nat) is Comma,
    ensures
        argument_list(tokens, pos, found).result matches Ok(list) ==> list_stands_at(
            list,
            tokens,
            start,
        ) && list.len() > 0 && start + width_list(list) == pos + argument_list(
            tokens,
            pos,
            found,
        ).used,
    decreases remaining(tokens, pos), 18nat,
{
    reveal(argument_list);
    reveal(expression);
    lemma_expression_reads(tokens, pos);
    let first = expression(tokens, pos);
    if let Ok(e) = first.result {
        let more = found.push(e);
        assert(more.drop_last() =~= found);
        assert(more.last() == e);
        assert(list_stands_at(more, tokens, start));
        assert(width_before(more) == width_before(found) + width(e) + 1);
        if kind_at(tokens, pos + first.used) is Comma {
            lemma_argument_list_reads(tokens, start, pos + first.used + 1, more);
        }
    }
}

/// A call expression stands where it was found and covers the tokens it
/// used.
pub proof fn lemma_call_reads(tokens: Seq<TokenView>, pos: nat)
    ensures
        call(tokens, pos).result matches Ok(e) ==> stands_at(e, tokens, pos) && width(e)
            == call(tokens, pos).used,
    decreases remaining(tokens, pos), 2nat,
{
    reveal(call);
    reveal(primary);
    reveal(call_rest);
    lemma_primary_reads(tokens, pos);
    let head = primary(tokens, pos);
    if let Ok(callee) = head.result {
        lemma_call_rest_reads(tokens, pos, pos + head.used, callee);
    }
}

/// A unary expression stands where it was found and covers the tokens it
/// used.
pub proof fn lemma_unary_reads(tokens: Seq<TokenView>, pos: nat)
    ensures
        unary(tokens, pos).result matches Ok(e) ==> stands_at(e, tokens, pos) && width(e)
            == unary(tokens, pos).used,
    decreases remaining(tokens, pos), 3nat,
{
    reveal(unary);
    reveal(call);
    if kind_at(tokens, pos) is Bang || kind_at(tokens, pos) is Minus {
        lemma_unary_reads(tokens, pos + 1);
    } else {
        lemma_call_reads(tokens, pos);
    }
}

/// An operand stands where it was found and covers the tokens it used.
pub proof fn lemma_operand_reads(tokens: Seq<TokenView>, pos: nat, level: Level)
    ensures
        operand(tokens, pos, level).result matches Ok(e) ==> stands_at(e, tokens, pos) && width(
            e,
        ) == operand(tokens, pos, level).used,
    decreases remaining(tokens, pos), 4 + 2 * level.rank(),
{
    reveal(operand);
    reveal(binary);
    reveal(unary);
    match level {
        Level::Or => lemma_binary_reads(tokens, pos, Level::And),
        Level::And => lemma_binary_reads(tokens, pos, Level::Equality),
        Level::Equality => lemma_binary_reads(tokens, pos, Level::Comparison),
        Level::Comparison => lemma_binary_reads(tokens, pos, Level::Term),
        Level::Term => lemma_binary_reads(tokens, pos, Level::Factor),
        Level::Factor => lemma_unary_reads(tokens, pos),
    }
}

/// Operators and operands folded onto a left side that stands at `start`
/// make a tree that stands at `start` and covers the left side and the
/// tokens used after it.
pub proof fn lemma_binary_rest_reads(
    tokens: Seq<TokenView>,
    start: nat,
    pos: nat,
    level: Level,
    left: ExprView,
)
    requires
        stands_at(left, tokens, start),
        pos == start + width(left),
    ensures
        binary_rest(tokens, pos, level, left).result matches Ok(e) ==> stands_at(
            e,
            tokens,
            start,
        ) && width(e) == width(left) + binary_rest(tokens, pos, level, left).used,
    decreases remaining(tokens, pos), 0nat,
{
    reveal(binary_rest);
    reveal(operand);
    if level.has_operator(kind_at(tokens, pos)) {
        lemma_operand_reads(tokens, pos + 1, level);
        let right = operand(tokens, pos + 1, level);
        if let Ok(r) = right.result {
            let joined = level.join(left, token_at(tokens, pos), r);
            assert(stands_at(joined, tokens, start));
            assert(width(joined) == width(left) + 1 + width(r));
            lemma_binary_rest_reads(tokens, start, pos + 1 + right.used, level, joined);
        }
    }
}

/// A chain of one level stands where it was found and covers the tokens
/// it used.
pub proof fn lemma_binary_reads(tokens: Seq<TokenView>, pos: nat, level: Level)
    ensures
        binary(tokens, pos, level).result matches Ok(e) ==> stands_at(e, tokens, pos) && width(
            e,
        ) == binary(tokens, pos, level).used,
    decreases remaining(tokens, pos), 5 + 2 * level.rank(),
{
    reveal(binary);
    reveal(operand);
    reveal(binary_rest);
    lemma_operand_reads(tokens, pos, level);
    let first = operand(tokens, pos, level);
    if let Ok(left) = first.result {
        lemma_binary_rest_reads(tokens, pos, pos + first.used, level, left);
    }
}

/// An assignment stands where it was found and covers the tokens it used.
pub proof fn lemma_assignment_reads(tokens: Seq<TokenView>, pos: nat)
    ensures
        assignment(tokens, pos).result matches Ok(e) ==> stands_at(e, tokens, pos) && width(e)
            == assignment(tokens, pos).used,
    decreases remaining(tokens, pos), 16nat,
{
    reveal(assignment);
    reveal(binary);
    lemma_binary_reads(tokens, pos, Level::Or);
    let left = binary(tokens, pos, Level::Or);
    if left.result is Ok && kind_at(tokens, pos + left.used) is Equal {
        lemma_assignment_reads(tokens, pos + left.used + 1);
    }
}

/// Nothing is lost in parsing: the tree found from `pos` on stands in the
/// tokens from `pos` on and covers exactly the tokens that were used.
/// Every token used is held by the tree at its place, or is a parenthesis,
/// a comma, a dot or an `=` that the shape of the tree implies there.
pub proof fn lemma_expression_reads(tokens: Seq<TokenView>, pos: nat)
    ensures
        expression(tokens, pos).result matches Ok(e) ==> stands_at(e, tokens, pos) && width(e)
            == expression(tokens, pos).used,
    decreases remaining(tokens, pos), 17nat,
{
    reveal(expression);
    reveal(assignment);
    lemma_assignment_reads(tokens, pos);
}

} // verus!
