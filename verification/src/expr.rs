//! The expression tree and the traversal abstraction over it.

use vstd::prelude::*;

use crate::token::{literal_view, Literal, LiteralView, Token, TokenView};

verus! {

/// An expression. Every node owns its children, so a value of this type is
/// a finite tree.
#[derive(Debug)]
#[allow(inconsistent_fields)]
pub enum Expr {
    Assign { name: Token, value: Box<Expr> },
    Binary { left: Box<Expr>, oper: Token, right: Box<Expr> },
    /// `paren` is the closing parenthesis of the call, kept for its line.
    Call { callee: Box<Expr>, paren: Token, args: Vec<Expr> },
    Get { obj: Box<Expr>, name: Token },
    Grouping { expression: Box<Expr> },
    /// A literal value; `nil` is the absent payload.
    Literal { value: Option<Literal> },
    Logical { left: Box<Expr>, oper: Token, right: Box<Expr> },
    SetProperty { obj: Box<Expr>, name: Token, value: Box<Expr> },
    Super { keyword: Token, method: Token },
    This { keyword: Token },
    Unary { oper: Token, right: Box<Expr> },
    Variable { name: Token },
}

/// Mathematical model of an [`Expr`].
#[allow(inconsistent_fields)]
pub enum ExprView {
    Assign { name: TokenView, value: Box<ExprView> },
    Binary { left: Box<ExprView>, oper: TokenView, right: Box<ExprView> },
    Call { callee: Box<ExprView>, paren: TokenView, args: Seq<ExprView> },
    Get { obj: Box<ExprView>, name: TokenView },
    Grouping { expression: Box<ExprView> },
    Literal { value: Option<LiteralView> },
    Logical { left: Box<ExprView>, oper: TokenView, right: Box<ExprView> },
    SetProperty { obj: Box<ExprView>, name: TokenView, value: Box<ExprView> },
    Super { keyword: TokenView, method: TokenView },
    This { keyword: TokenView },
    Unary { oper: TokenView, right: Box<ExprView> },
    Variable { name: TokenView },
}

impl Expr {
    /// The model of this tree, node by node.
    pub open spec fn model(&self) -> ExprView
        decreases self,
    {
        match self {
            Expr::Assign { name, value } => ExprView::Assign {
                name: name@,
                value: Box::new(value.model()),
            },
            Expr::Binary { left, oper, right } => ExprView::Binary {
                left: Box::new(left.model()),
                oper: oper@,
                right: Box::new(right.model()),
            },
            Expr::Call { callee, paren, args } => ExprView::Call {
                callee: Box::new(callee.model()),
                paren: paren@,
                args: Seq::new(
                    args@.len(),
                    |i: int|
                        if 0 <= i < args@.len() {
                            args@[i].model()
                        } else {
                            arbitrary()
                        },
                ),
            },
            Expr::Get { obj, name } => ExprView::Get { obj: Box::new(obj.model()), name: name@ },
            Expr::Grouping { expression } => ExprView::Grouping {
                expression: Box::new(expression.model()),
            },
            Expr::Literal { value } => ExprView::Literal { value: literal_view(*value) },
            Expr::Logical { left, oper, right } => ExprView::Logical {
                left: Box::new(left.model()),
                oper: oper@,
                right: Box::new(right.model()),
            },
            Expr::SetProperty { obj, name, value } => ExprView::SetProperty {
                obj: Box::new(obj.model()),
                name: name@,
                value: Box::new(value.model()),
            },
            Expr::Super { keyword, method } => ExprView::Super {
                keyword: keyword@,
                method: method@,
            },
            Expr::This { keyword } => ExprView::This { keyword: keyword@ },
            Expr::Unary { oper, right } => ExprView::Unary {
                oper: oper@,
                right: Box::new(right.model()),
            },
            Expr::Variable { name } => ExprView::Variable { name: name@ },
        }
    }
}

impl View for Expr {
    type V = ExprView;

    open spec fn view(&self) -> ExprView {
        self.model()
    }
}

/// The models of a sequence of expressions, in order.
pub open spec fn expr_views(exprs: Seq<Expr>) -> Seq<ExprView> {
    Seq::new(exprs.len(), |i: int| exprs[i]@)
}

/// The arguments of a call node are modelled one by one.
pub proof fn lemma_call_view(callee: Box<Expr>, paren: Token, args: Vec<Expr>)
    ensures
        (Expr::Call { callee, paren, args })@ == (ExprView::Call {
            callee: Box::new(callee@),
            paren: paren@,
            args: expr_views(args@),
        }),
{
    let node = Expr::Call { callee, paren, args };
    assert(node@->Call_args =~= expr_views(args@));
}

/// An operation over expressions, with one method per kind of node.
///
/// `visits` is the operation's own account of itself: whether, started in
/// state `self` on a node modelled by `node`, it can end in state `after`
/// and return `result`. Each method promises to stay within that account
/// for the kind of node it is named after. An operation that gives no
/// account of itself allows every outcome.
pub trait Visitor<T> {
    open spec fn visits(&self, node: ExprView, after: &Self, result: T) -> bool {
        true
    }

    fn visit_assign(&mut self, name: &Token, value: &Expr) -> (result: T)
        ensures
            old(self).visits(
                ExprView::Assign { name: name@, value: Box::new(value@) },
                final(self),
                result,
            ),
    ;

    fn visit_binary(&mut self, left: &Expr, oper: &Token, right: &Expr) -> (result: T)
        ensures
            old(self).visits(
                ExprView::Binary { left: Box::new(left@), oper: oper@, right: Box::new(right@) },
                final(self),
                result,
            ),
    ;

    fn visit_call(&mut self, callee: &Expr, paren: &Token, args: &Vec<Expr>) -> (result: T)
        ensures
            old(self).visits(
                ExprView::Call {
                    callee: Box::new(callee@),
                    paren: paren@,
                    args: expr_views(args@),
                },
                final(self),
                result,
            ),
    ;

    fn visit_get(&mut self, obj: &Expr, name: &Token) -> (result: T)
        ensures
            old(self).visits(
                ExprView::Get { obj: Box::new(obj@), name: name@ },
                final(self),
                result,
            ),
    ;

    fn visit_grouping(&mut self, expression: &Expr) -> (result: T)
        ensures
            old(self).visits(
                ExprView::Grouping { expression: Box::new(expression@) },
                final(self),
                result,
            ),
    ;

    fn visit_literal(&mut self, value: &Option<Literal>) -> (result: T)
        ensures
            old(self).visits(
                ExprView::Literal { value: literal_view(*value) },
                final(self),
                result,
            ),
    ;

    fn visit_logical(&mut self, left: &Expr, oper: &Token, right: &Expr) -> (result: T)
        ensures
            old(self).visits(
                ExprView::Logical { left: Box::new(left@), oper: oper@, right: Box::new(right@) },
                final(self),
                result,
            ),
    ;

    fn visit_set(&mut self, obj: &Expr, name: &Token, value: &Expr) -> (result: T)
        ensures
            old(self).visits(
                ExprView::SetProperty { obj: Box::new(obj@), name: name@, value: Box::new(value@) },
                final(self),
                result,
            ),
    ;

    fn visit_super(&mut self, keyword: &Token, method: &Token) -> (result: T)
        ensures
            old(self).visits(
                ExprView::Super { keyword: keyword@, method: method@ },
                final(self),
                result,
            ),
    ;

    fn visit_this(&mut self, keyword: &Token) -> (result: T)
        ensures
            old(self).visits(ExprView::This { keyword: keyword@ }, final(self), result),
    ;

    fn visit_unary(&mut self, oper: &Token, right: &Expr) -> (result: T)
        ensures
            old(self).visits(
                ExprView::Unary { oper: oper@, right: Box::new(right@) },
                final(self),
                result,
            ),
    ;

    fn visit_variable(&mut self, name: &Token) -> (result: T)
        ensures
            old(self).visits(ExprView::Variable { name: name@ }, final(self), result),
    ;
}

/// What can be traversed by a [`Visitor`].
pub trait Accept<T> {
    fn accept<V: Visitor<T>>(&self, v: &mut V) -> T;
}

impl<T> Accept<T> for Expr {
    /// Hands the payload of this node to the method of `v` for its kind, and
    /// returns what that method returns.
    fn accept<V: Visitor<T>>(&self, v: &mut V) -> (result: T)
        ensures
            old(v).visits(self@, final(v), result),
    {
        match self {
            Expr::Assign { name, value } => v.visit_assign(name, value),
            Expr::Binary { left, oper, right } => v.visit_binary(left, oper, right),
            Expr::Call { callee, paren, args } => {
                proof {
                    lemma_call_view(*callee, *paren, *args);
                }
                v.visit_call(callee, paren, args)
            },
            Expr::Get { obj, name } => v.visit_get(obj, name),
            Expr::Grouping { expression } => v.visit_grouping(expression),
            Expr::Literal { value } => v.visit_literal(value),
            Expr::Logical { left, oper, right } => v.visit_logical(left, oper, right),
            Expr::SetProperty { obj, name, value } => v.visit_set(obj, name, value),
            Expr::Super { keyword, method } => v.visit_super(keyword, method),
            Expr::This { keyword } => v.visit_this(keyword),
            Expr::Unary { oper, right } => v.visit_unary(oper, right),
            Expr::Variable { name } => v.visit_variable(name),
        }
    }
}

} // verus!
