//! Runtime values and the language-level operations on them: truthiness,
//! equality and rendering.

use crate::loxfunction::{FunM, LoxFunction};
use crate::numbers::{num_eq, num_text, num_to_text};
use std::rc::Rc;
use vstd::prelude::*;

verus! {

/// The mathematical model of a runtime value.
pub enum ValM {
    Num(u64),
    Bool(bool),
    Str(Seq<char>),
    Nil,
    Fun(FunM),
}

/// A runtime value: a number (as its binary64 pattern), a boolean, a
/// string, nil, or a declared function.
#[derive(PartialEq, Debug)]
pub enum Value {
    Number(u64),
    Boolean(bool),
    String(String),
    Nil,
    LoxFunction(LoxFunction),
}

impl View for Value {
    type V = ValM;

    open spec fn view(&self) -> ValM {
        match self {
            Value::Number(b) => ValM::Num(*b),
            Value::Boolean(b) => ValM::Bool(*b),
            Value::String(s) => ValM::Str(s@),
            Value::Nil => ValM::Nil,
            Value::LoxFunction(f) => ValM::Fun(f@),
        }
    }
}

/// Truthiness: only `false` and `nil` are falsy; every other value,
/// including `0` and the empty string, is truthy.
pub open spec fn truthy(v: ValM) -> bool {
    match v {
        ValM::Bool(b) => b,
        ValM::Nil => false,
        _ => true,
    }
}

/// Language-level equality. Values of different kinds are never equal (so a
/// cross-kind comparison is `false`, not an error); numbers compare by
/// IEEE-754 equality; strings by their characters. Two function values are
/// equal when they come from the same declaration site: same name text,
/// same line, same arity. The bodies are never compared structurally —
/// two distinct declarations that happen to share name, line and arity
/// compare equal here, where a structural comparison of the declarations
/// would tell them apart.
pub open spec fn eq_vals(a: ValM, b: ValM) -> bool {
    match (a, b) {
        (ValM::Num(x), ValM::Num(y)) => num_eq(x, y),
        (ValM::Bool(x), ValM::Bool(y)) => x == y,
        (ValM::Str(x), ValM::Str(y)) => x == y,
        (ValM::Nil, ValM::Nil) => true,
        (ValM::Fun(f), ValM::Fun(g)) => f.name.lexeme == g.name.lexeme && f.name.line
            == g.name.line && f.params.len() == g.params.len(),
        _ => false,
    }
}

/// The canonical text of a value: numbers per `num_text`, booleans as
/// `true`/`false`, nil as `nil`, strings verbatim, functions as `<fn NAME>`.
pub open spec fn val_text(v: ValM) -> Seq<char> {
    match v {
        ValM::Num(b) => num_text(b),
        ValM::Bool(b) => if b {
            "true"@
        } else {
            "false"@
        },
        ValM::Str(s) => s,
        ValM::Nil => "nil"@,
        ValM::Fun(f) => "<fn "@ + f.name.lexeme + ">"@,
    }
}

/// Relies on `Rc::clone`: the result is another handle to the same
/// allocation, hence the same value.
#[verifier::external_body]
pub fn rc_dup<T>(rc: &Rc<T>) -> (r: Rc<T>)
    ensures
        r == *rc,
{
    Rc::clone(rc)
}

impl Clone for Value {
    /// A clone of a value models the same value.
    fn clone(&self) -> (res: Self)
        ensures
            res@ == self@,
    {
        match self {
            Value::Number(b) => Value::Number(*b),
            Value::Boolean(b) => Value::Boolean(*b),
            Value::String(s) => Value::String(s.clone()),
            Value::Nil => Value::Nil,
            Value::LoxFunction(f) => Value::LoxFunction(
                LoxFunction {
                    name: f.name.clone(),
                    params: rc_dup(&f.params),
                    body: rc_dup(&f.body),
                },
            ),
        }
    }
}

impl Value {
    /// Whether the value counts as true in a condition.
    pub fn is_true(&self) -> (r: bool)
        ensures
            r == truthy(self@),
    {
        match self {
            Value::Boolean(b) => *b,
            Value::Nil => false,
            _ => true,
        }
    }

    /// Language-level equality, as `eq_vals` defines it.
    pub fn equals(&self, other: &Value) -> (r: bool)
        ensures
            r == eq_vals(self@, other@),
    {
        match (self, other) {
            (Value::Number(x), Value::Number(y)) => crate::numbers::eq_bits(*x, *y),
            (Value::Boolean(x), Value::Boolean(y)) => *x == *y,
            (Value::String(x), Value::String(y)) => *x == *y,
            (Value::Nil, Value::Nil) => true,
            (Value::LoxFunction(f), Value::LoxFunction(g)) => f.name.lexeme == g.name.lexeme
                && f.name.line == g.name.line && f.params.len() == g.params.len(),
            _ => false,
        }
    }

    /// The canonical text of the value, as `val_text` defines it.
    pub fn to_text(&self) -> (r: String)
        ensures
            r@ == val_text(self@),
    {
        match self {
            Value::Number(b) => num_to_text(*b),
            Value::Boolean(b) => if *b {
                "true".to_owned()
            } else {
                "false".to_owned()
            },
            Value::String(s) => s.clone(),
            Value::Nil => "nil".to_owned(),
            Value::LoxFunction(f) => {
                let mut s = "<fn ".to_owned();
                s.append(f.name.lexeme.as_str());
                s.append(">");
                proof {
                    assert(s@ =~= val_text(self@));
                }
                s
            },
        }
    }
}

} // verus!
