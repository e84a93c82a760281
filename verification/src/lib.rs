//! A tree-walking interpreter for a small dynamically typed scripting
//! language: source text is scanned into tokens, parsed by recursive descent
//! into statements and expressions, and evaluated against a chain of lexical
//! scopes.

pub mod environment;
pub mod expr;
pub mod grammar;
pub mod interpreter;
pub mod loxfunction;
pub mod loxresult;
pub mod numbers;
pub mod parser;
pub mod semantics;
pub mod stmt;
pub mod token;
pub mod value;

use vstd::prelude::*;

verus! {

} // verus!
