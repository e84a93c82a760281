//! Statement nodes of the abstract syntax tree.
//!
//! A function declaration holds its parameter list and body behind shared
//! handles, so that the function value built at declaration time refers to
//! the same nodes as the tree itself.

use crate::expr::{expr_view, ExprM, Expr};
use crate::token::{TokM, Token};
use std::rc::Rc;
use vstd::prelude::*;

verus! {

/// A statement: the closed set of node variants the parser can produce.
#[derive(PartialEq, Debug)]
pub enum Stmt {
    Expression { expression: Box<Expr> },
    Print { expression: Box<Expr> },
    Var { name: Token, initializer: Option<Box<Expr>> },
    Block { statements: Vec<Stmt> },
    If { condition: Box<Expr>, then_branch: Box<Stmt>, else_branch: Option<Box<Stmt>> },
    While { condition: Box<Expr>, body: Box<Stmt> },
    Function { name: Token, params: Rc<Vec<Token>>, body: Rc<Vec<Stmt>> },
    Return { keyword: Token, value: Option<Expr> },
}


/// The number of nodes in a statement, the measure that recursion over the
/// tree decreases.
pub open spec fn stmt_size(s: Stmt) -> nat
    decreases s,
{
    match s {
        Stmt::Expression { expression } => 1 + crate::expr::expr_size(*expression),
        Stmt::Print { expression } => 1 + crate::expr::expr_size(*expression),
        Stmt::Var { name, initializer } => 1 + (match initializer {
            Some(e) => crate::expr::expr_size(*e),
            None => 0,
        }),
        Stmt::Block { statements } => 1 + stmts_size(statements@),
        Stmt::If { condition, then_branch, else_branch } => 1 + crate::expr::expr_size(*condition)
            + stmt_size(*then_branch) + (match else_branch {
            Some(e) => stmt_size(*e),
            None => 0,
        }),
        Stmt::While { condition, body } => 1 + crate::expr::expr_size(*condition) + stmt_size(
            *body,
        ),
        Stmt::Function { name, params, body } => 1,
        Stmt::Return { keyword, value } => 1 + (match value {
            Some(e) => crate::expr::expr_size(e),
            None => 0,
        }),
    }
}

/// The total size of a sequence of statements.
pub open spec fn stmts_size(ss: Seq<Stmt>) -> nat
    decreases ss,
{
    if ss.len() == 0 {
        0
    } else {
        1 + stmt_size(ss[0]) + stmts_size(ss.drop_first())
    }
}


/// The mathematical model of a statement.
pub enum StmtM {
    Expression { expression: Box<ExprM> },
    Print { expression: Box<ExprM> },
    Var { name: TokM, initializer: Option<Box<ExprM>> },
    Block { statements: Seq<StmtM> },
    If { condition: Box<ExprM>, then_branch: Box<StmtM>, else_branch: Option<Box<StmtM>> },
    While { condition: Box<ExprM>, body: Box<StmtM> },
    Function { name: TokM, params: Seq<TokM>, body: Seq<StmtM> },
    Return { keyword: TokM, value: Option<Box<ExprM>> },
}

/// The models of a parameter list.
pub open spec fn toks_view(ts: Seq<Token>) -> Seq<TokM> {
    ts.map_values(|t: Token| t@)
}

/// The model of a statement node.
pub open spec fn stmt_view(s: Stmt) -> StmtM
    decreases s,
{
    match s {
        Stmt::Expression { expression } => StmtM::Expression {
            expression: Box::new(expr_view(*expression)),
        },
        Stmt::Print { expression } => StmtM::Print {
            expression: Box::new(expr_view(*expression)),
        },
        Stmt::Var { name, initializer } => StmtM::Var {
            name: name@,
            initializer: match initializer {
                Some(e) => Some(Box::new(expr_view(*e))),
                None => None,
            },
        },
        Stmt::Block { statements } => StmtM::Block { statements: stmts_view(statements@) },
        Stmt::If { condition, then_branch, else_branch } => StmtM::If {
            condition: Box::new(expr_view(*condition)),
            then_branch: Box::new(stmt_view(*then_branch)),
            else_branch: match else_branch {
                Some(e) => Some(Box::new(stmt_view(*e))),
                None => None,
            },
        },
        Stmt::While { condition, body } => StmtM::While {
            condition: Box::new(expr_view(*condition)),
            body: Box::new(stmt_view(*body)),
        },
        Stmt::Function { name, params, body } => StmtM::Function {
            name: name@,
            params: toks_view(params@),
            body: stmts_view(body@),
        },
        Stmt::Return { keyword, value } => StmtM::Return {
            keyword: keyword@,
            value: match value {
                Some(e) => Some(Box::new(expr_view(e))),
                None => None,
            },
        },
    }
}

/// The models of a sequence of statements.
pub open spec fn stmts_view(ss: Seq<Stmt>) -> Seq<StmtM>
    decreases ss,
{
    if ss.len() == 0 {
        Seq::empty()
    } else {
        seq![stmt_view(ss[0])] + stmts_view(ss.drop_first())
    }
}

impl View for Stmt {
    type V = StmtM;

    open spec fn view(&self) -> StmtM {
        stmt_view(*self)
    }
}

} // verus!
