//! Expression nodes of the abstract syntax tree. Construction is strictly
//! bottom-up during parsing, so no node is ever shared between two parents
//! and no cycles can form.

use crate::token::{LitM, Literal, TokM, Token};
use vstd::prelude::*;

verus! {

/// An expression: the closed set of node variants the parser can produce.
#[derive(PartialEq, Debug)]
pub enum Expr {
    Binary { left: Box<Expr>, operator: Token, right: Box<Expr> },
    Grouping { expression: Box<Expr> },
    Literal { value: Literal },
    Unary { operator: Token, right: Box<Expr> },
    Variable { name: Token },
    Assign { name: Token, value: Box<Expr> },
    Logical { left: Box<Expr>, operator: Token, right: Box<Expr> },
    Call { callee: Box<Expr>, paren: Token, arguments: Vec<Expr> },
}

/// A visitor over the expression variants that a generic walker handles.
pub trait Visitor<R> {
    fn visit_binary(&self, left: &Expr, operator: &Token, right: &Expr) -> R;

    fn visit_grouping(&self, expression: &Expr) -> R;

    fn visit_literal(&self, value: &Literal) -> R;

    fn visit_unary(&self, operator: &Token, right: &Expr) -> R;
}

impl Expr {
    /// Dispatches on the variant and hands the node's parts to the visitor.
    /// Only the four variants the visitor declares are handled.
    pub fn accept<R, V: Visitor<R>>(&self, visitor: &V) -> R
        requires
            self is Binary || self is Grouping || self is Literal || self is Unary,
    {
        match self {
            Expr::Binary { left, operator, right } => visitor.visit_binary(left, operator, right),
            Expr::Grouping { expression } => visitor.visit_grouping(expression),
            Expr::Literal { value } => visitor.visit_literal(value),
            Expr::Unary { operator, right } => visitor.visit_unary(operator, right),
            _ => unreached(),
        }
    }
}


/// The number of nodes in an expression, the measure that recursion over
/// the tree decreases.
pub open spec fn expr_size(e: Expr) -> nat
    decreases e,
{
    match e {
        Expr::Binary { left, operator, right } => 1 + expr_size(*left) + expr_size(*right),
        Expr::Grouping { expression } => 1 + expr_size(*expression),
        Expr::Literal { value } => 1,
        Expr::Unary { operator, right } => 1 + expr_size(*right),
        Expr::Variable { name } => 1,
        Expr::Assign { name, value } => 1 + expr_size(*value),
        Expr::Logical { left, operator, right } => 1 + expr_size(*left) + expr_size(*right),
        Expr::Call { callee, paren, arguments } => 1 + expr_size(*callee) + exprs_size(
            arguments@,
        ),
    }
}

/// The total size of a sequence of expressions.
pub open spec fn exprs_size(es: Seq<Expr>) -> nat
    decreases es,
{
    if es.len() == 0 {
        0
    } else {
        1 + expr_size(es[0]) + exprs_size(es.drop_first())
    }
}


/// The mathematical model of an expression: the same shape, with tokens
/// and children as their models.
pub enum ExprM {
    Binary { left: Box<ExprM>, operator: TokM, right: Box<ExprM> },
    Grouping { expression: Box<ExprM> },
    Literal { value: LitM },
    Unary { operator: TokM, right: Box<ExprM> },
    Variable { name: TokM },
    Assign { name: TokM, value: Box<ExprM> },
    Logical { left: Box<ExprM>, operator: TokM, right: Box<ExprM> },
    Call { callee: Box<ExprM>, paren: TokM, arguments: Seq<ExprM> },
}

/// The model of an expression node.
pub open spec fn expr_view(e: Expr) -> ExprM
    decreases e,
{
    match e {
        Expr::Binary { left, operator, right } => ExprM::Binary {
            left: Box::new(expr_view(*left)),
            operator: operator@,
            right: Box::new(expr_view(*right)),
        },
        Expr::Grouping { expression } => ExprM::Grouping {
            expression: Box::new(expr_view(*expression)),
        },
        Expr::Literal { value } => ExprM::Literal { value: value@ },
        Expr::Unary { operator, right } => ExprM::Unary {
            operator: operator@,
            right: Box::new(expr_view(*right)),
        },
        Expr::Variable { name } => ExprM::Variable { name: name@ },
        Expr::Assign { name, value } => ExprM::Assign {
            name: name@,
            value: Box::new(expr_view(*value)),
        },
        Expr::Logical { left, operator, right } => ExprM::Logical {
            left: Box::new(expr_view(*left)),
            operator: operator@,
            right: Box::new(expr_view(*right)),
        },
        Expr::Call { callee, paren, arguments } => ExprM::Call {
            callee: Box::new(expr_view(*callee)),
            paren: paren@,
            arguments: exprs_view(arguments@),
        },
    }
}

/// The models of a sequence of expressions.
pub open spec fn exprs_view(es: Seq<Expr>) -> Seq<ExprM>
    decreases es,
{
    if es.len() == 0 {
        Seq::empty()
    } else {
        seq![expr_view(es[0])] + exprs_view(es.drop_first())
    }
}


/// Appending one expression extends the model sequence by its model.
#[verifier::rlimit(60)]
pub proof fn lemma_exprs_view_push(es: Seq<Expr>, e: Expr)
    ensures
        exprs_view(es.push(e)) == exprs_view(es).push(expr_view(e)),
    decreases es.len(),
{
    if es.len() == 0 {
        assert(es.push(e).drop_first() =~= Seq::<Expr>::empty());
        assert(es.push(e)[0] == e);
        assert(exprs_view(Seq::<Expr>::empty()) == Seq::<ExprM>::empty());
        assert(exprs_view(es.push(e)) == seq![expr_view(e)] + exprs_view(Seq::<Expr>::empty()));
        assert(exprs_view(es.push(e)) =~= exprs_view(es).push(expr_view(e)));
    } else {
        lemma_exprs_view_push(es.drop_first(), e);
        assert(es.push(e).drop_first() =~= es.drop_first().push(e));
        assert(es.push(e)[0] == es[0]);
        assert(exprs_view(es.push(e)) == seq![expr_view(es[0])] + exprs_view(
            es.drop_first().push(e),
        ));
        assert(exprs_view(es.push(e)) =~= exprs_view(es).push(expr_view(e)));
    }
}


/// A sequence and its model have the same length.
pub proof fn lemma_exprs_view_len(es: Seq<Expr>)
    ensures
        exprs_view(es).len() == es.len(),
    decreases es.len(),
{
    if es.len() > 0 {
        lemma_exprs_view_len(es.drop_first());
    }
}

impl View for Expr {
    type V = ExprM;

    open spec fn view(&self) -> ExprM {
        expr_view(*self)
    }
}

} // verus!
