//! Expression trees.

use vstd::prelude::*;
use crate::error::ParserError;
use crate::token::Token;
use crate::value::Value;

verus! {

/// What a parsing function yields: a boxed node, or the marker of a
/// reported syntax error.
pub type MyResult<T> = Result<Box<T>, ParserError>;

/// An expression tree. Every node keeps the token that tells its source
/// line.
#[derive(Debug)]
#[allow(inconsistent_fields)]
pub enum Expr {
    Assign { name: Token, value: Box<Expr> },
    Binary { left: Box<Expr>, operator: Token, right: Box<Expr> },
    Call { callee: Box<Expr>, paren: Token, arguments: Vec<Expr> },
    Grouping { expression: Box<Expr> },
    Literal { value: Value },
    Logical { left: Box<Expr>, operator: Token, right: Box<Expr> },
    Unary { operator: Token, right: Box<Expr> },
    Variable { name: Token },
}

/// An expression tree with the arguments of a call as a sequence.
#[allow(inconsistent_fields)]
pub ghost enum ExprModel {
    Assign { name: Token, value: Box<ExprModel> },
    Binary { left: Box<ExprModel>, operator: Token, right: Box<ExprModel> },
    Call { callee: Box<ExprModel>, paren: Token, arguments: Seq<ExprModel> },
    Grouping { expression: Box<ExprModel> },
    Literal { value: Value },
    Logical { left: Box<ExprModel>, operator: Token, right: Box<ExprModel> },
    Unary { operator: Token, right: Box<ExprModel> },
    Variable { name: Token },
}

impl Expr {
    /// The tree as a mathematical value.
    pub open spec fn model(&self) -> ExprModel
        decreases self,
    {
        match self {
            Expr::Assign { name, value } => ExprModel::Assign {
                name: *name,
                value: Box::new(value.model()),
            },
            Expr::Binary { left, operator, right } => ExprModel::Binary {
                left: Box::new(left.model()),
                operator: *operator,
                right: Box::new(right.model()),
            },
            Expr::Call { callee, paren, arguments } => ExprModel::Call {
                callee: Box::new(callee.model()),
                paren: *paren,
                arguments: Seq::new(
                    arguments@.len(),
                    |i: int|
                        if 0 <= i < arguments@.len() {
                            arguments@[i].model()
                        } else {
                            arbitrary()
                        },
                ),
            },
            Expr::Grouping { expression } => ExprModel::Grouping {
                expression: Box::new(expression.model()),
            },
            Expr::Literal { value } => ExprModel::Literal { value: *value },
            Expr::Logical { left, operator, right } => ExprModel::Logical {
                left: Box::new(left.model()),
                operator: *operator,
                right: Box::new(right.model()),
            },
            Expr::Unary { operator, right } => ExprModel::Unary {
                operator: *operator,
                right: Box::new(right.model()),
            },
            Expr::Variable { name } => ExprModel::Variable { name: *name },
        }
    }
}

impl View for Expr {
    type V = ExprModel;

    open spec fn view(&self) -> ExprModel {
        self.model()
    }
}

/// The models of a list of expressions, in order.
pub open spec fn expr_models(list: Seq<Expr>) -> Seq<ExprModel> {
    Seq::new(list.len(), |i: int| list[i]@)
}

/// The model of a call holds the models of its arguments.
pub proof fn lemma_call_model(callee: Box<Expr>, paren: Token, arguments: Vec<Expr>)
    ensures
        (Expr::Call { callee, paren, arguments })@ == (ExprModel::Call {
            callee: Box::new(callee@),
            paren,
            arguments: expr_models(arguments@),
        }),
{
    let call = Expr::Call { callee, paren, arguments };
    assert(call.model()->Call_arguments =~= expr_models(arguments@));
}

/// What works on expressions node by node.
pub trait ExprVisitor<'a, R>: Sized {
    /// Whether the visitor is fit to visit.
    spec fn prepared(&self) -> bool;

    /// Whether a visit of `a` yields `r` and leaves the visitor as `after`.
    spec fn visits(&self, a: &'a Expr, after: &Self, r: R) -> bool;

    fn visit(&mut self, a: &'a Expr) -> (r: R)
        requires
            old(self).prepared(),
        ensures
            old(self).visits(a, final(self), r),
    ;
}

impl Expr {
    /// Has `visitor` visit the expression.
    pub fn accept<'a, R, V: ExprVisitor<'a, R>>(&'a self, visitor: &mut V) -> (r: R)
        requires
            old(visitor).prepared(),
        ensures
            old(visitor).visits(self, final(visitor), r),
    {
        visitor.visit(self)
    }

    /// The node, boxed, as the outcome of a parsing function.
    pub fn wrap(self) -> (r: MyResult<Expr>)
        ensures
            r == Ok::<Box<Expr>, ParserError>(Box::new(self)),
    {
        Ok(Box::new(self))
    }
}

} // verus!
