//! The one result channel of parsing and evaluation: genuine errors and the
//! control-flow signal that `return` raises travel on it, distinguished by
//! kind, so a call boundary can catch exactly the `return` kind and let the
//! others pass.

use crate::token::{TokM, Token};
use crate::value::{ValM, Value};
use vstd::prelude::*;

verus! {

/// The mathematical model of a `LoxResult`.
pub enum SigM {
    RtErr { token: TokM, msg: Seq<char> },
    ParseErr { token: TokM, msg: Seq<char> },
    Ret { value: ValM },
    Brk,
}

/// What a failed parse or evaluation step hands back: a runtime error or a
/// parse error at a token, the value a `return` statement carries, or the
/// signal of breaking out of a loop.
#[derive(Debug)]
pub enum LoxResult {
    RuntimeError { token: Token, message: String },
    ParseError { token: Token, message: String },
    ReturnValue { value: Value },
    Break,
}

impl View for LoxResult {
    type V = SigM;

    open spec fn view(&self) -> SigM {
        match self {
            LoxResult::RuntimeError { token, message } => SigM::RtErr {
                token: token@,
                msg: message@,
            },
            LoxResult::ParseError { token, message } => SigM::ParseErr {
                token: token@,
                msg: message@,
            },
            LoxResult::ReturnValue { value } => SigM::Ret { value: value@ },
            LoxResult::Break => SigM::Brk,
        }
    }
}

impl LoxResult {
    /// A runtime error at a token.
    pub fn runtime_error(token: Token, message: String) -> (r: LoxResult)
        ensures
            r@ == (SigM::RtErr { token: token@, msg: message@ }),
    {
        LoxResult::RuntimeError { token, message }
    }

    /// A parse error at a token.
    pub fn parse_error(token: Token, message: String) -> (r: LoxResult)
        ensures
            r@ == (SigM::ParseErr { token: token@, msg: message@ }),
    {
        LoxResult::ParseError { token, message }
    }

    /// Hands the error back for further propagation. Only the two error
    /// kinds travel this way; reporting them is the host's business.
    pub fn error(&self) -> (r: Self)
        requires
            self is RuntimeError || self is ParseError,
        ensures
            r@ == self@,
    {
        match self {
            LoxResult::RuntimeError { token, message } => LoxResult::RuntimeError {
                token: token.clone(),
                message: message.clone(),
            },
            LoxResult::ParseError { token, message } => LoxResult::ParseError {
                token: token.clone(),
                message: message.clone(),
            },
            _ => unreached(),
        }
    }
}

} // verus!
