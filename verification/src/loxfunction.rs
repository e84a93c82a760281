//! Declared functions: the one kind of callable value the language has.

use crate::stmt::Stmt;
use crate::token::{TokM, Token};
use std::rc::Rc;
use vstd::prelude::*;

verus! {

/// The mathematical model of a function value: its name token, its
/// parameter tokens in order, and its body statements in order.
pub struct FunM {
    pub name: TokM,
    pub params: Seq<Token>,
    pub body: Seq<Stmt>,
}

/// A function value: built when a declaration is executed, carrying the
/// declared parameter list and body by shared handle.
#[derive(PartialEq, Debug)]
pub struct LoxFunction {
    pub name: Token,
    pub params: Rc<Vec<Token>>,
    pub body: Rc<Vec<Stmt>>,
}

impl View for LoxFunction {
    type V = FunM;

    open spec fn view(&self) -> FunM {
        FunM { name: self.name@, params: self.params@, body: self.body@ }
    }
}

impl LoxFunction {
    pub fn new(name: Token, params: Rc<Vec<Token>>, body: Rc<Vec<Stmt>>) -> (f: LoxFunction)
        ensures
            f@ == (FunM { name: name@, params: params@, body: body@ }),
    {
        LoxFunction { name, params, body }
    }

    /// The number of parameters the function declares.
    pub fn arity(&self) -> (n: usize)
        ensures
            n == self@.params.len(),
    {
        self.params.len()
    }
}

} // verus!
