//! Statement trees.

use vstd::prelude::*;
use crate::error::ParserError;
use crate::expression::{Expr, ExprModel};
use crate::token::Token;

verus! {

/// A statement tree.
#[derive(Debug)]
#[allow(inconsistent_fields)]
pub enum Stmt {
    Block { statements: Vec<Stmt> },
    Expression { expression: Expr },
    Function { name: Token, params: Vec<Token>, body: Vec<Stmt> },
    If { condition: Expr, then_branch: Box<Stmt>, else_branch: Option<Box<Stmt>> },
    Print { expression: Expr },
    Return { keyword: Token, value: Option<Expr> },
    Var { name: Token, initializer: Expr },
    While { condition: Expr, body: Box<Stmt> },
}

/// A statement tree with its lists as sequences.
#[allow(inconsistent_fields)]
pub ghost enum StmtModel {
    Block { statements: Seq<StmtModel> },
    Expression { expression: ExprModel },
    Function { name: Token, params: Seq<Token>, body: Seq<StmtModel> },
    If { condition: ExprModel, then_branch: Box<StmtModel>, else_branch: Option<Box<StmtModel>> },
    Print { expression: ExprModel },
    Return { keyword: Token, value: Option<ExprModel> },
    Var { name: Token, initializer: ExprModel },
    While { condition: ExprModel, body: Box<StmtModel> },
}

impl Stmt {
    /// The tree as a mathematical value.
    pub open spec fn model(&self) -> StmtModel
        decreases self,
    {
        match self {
            Stmt::Block { statements } => StmtModel::Block {
                statements: Seq::new(
                    statements@.len(),
                    |i: int|
                        if 0 <= i < statements@.len() {
                            statements@[i].model()
                        } else {
                            arbitrary()
                        },
                ),
            },
            Stmt::Expression { expression } => StmtModel::Expression { expression: expression.model() },
            Stmt::Function { name, params, body } => StmtModel::Function {
                name: *name,
                params: params@,
                body: Seq::new(
                    body@.len(),
                    |i: int|
                        if 0 <= i < body@.len() {
                            body@[i].model()
                        } else {
                            arbitrary()
                        },
                ),
            },
            Stmt::If { condition, then_branch, else_branch } => StmtModel::If {
                condition: condition.model(),
                then_branch: Box::new(then_branch.model()),
                else_branch: match else_branch {
                    Some(branch) => Some(Box::new(branch.model())),
                    None => None,
                },
            },
            Stmt::Print { expression } => StmtModel::Print { expression: expression.model() },
            Stmt::Return { keyword, value } => StmtModel::Return {
                keyword: *keyword,
                value: match value {
                    Some(expression) => Some(expression.model()),
                    None => None,
                },
            },
            Stmt::Var { name, initializer } => StmtModel::Var {
                name: *name,
                initializer: initializer.model(),
            },
            Stmt::While { condition, body } => StmtModel::While {
                condition: condition.model(),
                body: Box::new(body.model()),
            },
        }
    }
}

impl View for Stmt {
    type V = StmtModel;

    open spec fn view(&self) -> StmtModel {
        self.model()
    }
}

/// The models of a list of statements, in order.
pub open spec fn stmt_models(list: Seq<Stmt>) -> Seq<StmtModel> {
    Seq::new(list.len(), |i: int| list[i]@)
}

/// The model of a block holds the models of its statements.
pub proof fn lemma_block_model(statements: Vec<Stmt>)
    ensures
        (Stmt::Block { statements })@ == (StmtModel::Block { statements: stmt_models(statements@) }),
{
    let block = Stmt::Block { statements };
    assert(block.model()->Block_statements =~= stmt_models(statements@));
}

/// The model of a function declaration holds the models of the statements
/// of its body.
pub proof fn lemma_function_model(name: Token, params: Vec<Token>, body: Vec<Stmt>)
    ensures
        (Stmt::Function { name, params, body })@ == (StmtModel::Function {
            name,
            params: params@,
            body: stmt_models(body@),
        }),
{
    let function = Stmt::Function { name, params, body };
    assert(function.model()->Function_body =~= stmt_models(body@));
}

/// What works on statements node by node.
pub trait StmtVisitor<'a, R>: Sized {
    /// Whether the visitor is fit to visit.
    spec fn prepared(&self) -> bool;

    /// Whether a visit of `stmt` leaves the visitor as `after`.
    spec fn visits(&self, stmt: &'a Stmt, after: &Self) -> bool;

    fn visit(&mut self, stmt: &'a Stmt)
        requires
            old(self).prepared(),
        ensures
            old(self).visits(stmt, final(self)),
    ;
}

impl Stmt {
    /// Has `visitor` visit the statement.
    pub fn accept<'a, R, V: StmtVisitor<'a, R>>(&'a self, visitor: &mut V)
        requires
            old(visitor).prepared(),
        ensures
            old(visitor).visits(self, final(visitor)),
    {
        visitor.visit(self)
    }

    /// The node, boxed, as the outcome of a parsing function.
    pub fn wrap(self) -> (r: Result<Box<Stmt>, ParserError>)
        ensures
            r == Ok::<Box<Stmt>, ParserError>(Box::new(self)),
    {
        Ok(Box::new(self))
    }
}

} // verus!
