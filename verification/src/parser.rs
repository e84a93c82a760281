//! Recursive-descent parsing of the token stream into statements, with
//! operator-precedence climbing for expressions and panic-mode recovery at
//! statement boundaries.
//!
//! Every method is proved equal to the grammar's spec functions in
//! `grammar`: parsing is a pure function of the token stream, and so are
//! the diagnostics it records.

use crate::expr::{exprs_view, Expr, ExprM};
use crate::grammar::{
    lemma_sync_loop_ge, parse_err, pk, sp_and, sp_and_rest, sp_args_rest, sp_assignment, sp_block,
    sp_call, sp_call_rest, sp_comparison, sp_comparison_rest, sp_declaration, sp_equality,
    sp_equality_rest, sp_expression, sp_expression_statement, sp_factor, sp_factor_rest,
    sp_finish_call, sp_for_statement, sp_function, sp_if_statement, sp_or, sp_or_rest,
    sp_param_list, sp_primary, sp_print_statement, sp_program, sp_return_statement, sp_statement,
    sp_sync_loop, sp_synchronize, sp_term, sp_term_rest, sp_unary, sp_var_declaration,
    sp_while_statement, wf_tokens,
};
use crate::loxresult::{LoxResult, SigM};
use crate::stmt::{Stmt, StmtM};
use crate::token::{LitM, Literal, TokM, Token, TokenType};
use std::rc::Rc;
use vstd::prelude::*;

verus! {

/// An executable parse result agrees with a spec expression result.
pub open spec fn er_match(r: Result<Expr, LoxResult>, sr: Result<ExprM, SigM>) -> bool {
    match (r, sr) {
        (Ok(e), Ok(m)) => e@ == m,
        (Err(x), Err(sg)) => x@ == sg,
        _ => false,
    }
}

/// An executable parse result agrees with a spec statement result.
pub open spec fn st_match(r: Result<Stmt, LoxResult>, sr: Result<StmtM, SigM>) -> bool {
    match (r, sr) {
        (Ok(e), Ok(m)) => e@ == m,
        (Err(x), Err(sg)) => x@ == sg,
        _ => false,
    }
}

/// The parser: the token stream, the cursor, and the diagnostics recorded
/// so far.
pub struct Parser {
    pub tokens: Vec<Token>,
    pub current: usize,
    pub errors: Vec<LoxResult>,
}

impl Parser {
    pub open spec fn toks(&self) -> Seq<Token> {
        self.tokens@
    }

    pub open spec fn pos(&self) -> int {
        self.current as int
    }

    pub open spec fn errs(&self) -> Seq<SigM> {
        self.errors@.map_values(|e: LoxResult| e@)
    }

    /// The cursor never passes the end-of-input marker.
    pub open spec fn wfp(&self) -> bool {
        wf_tokens(self.tokens@) && (self.current as int) < self.tokens@.len()
    }

    /// A parser over a scanned token stream, which must end with the
    /// end-of-input marker.
    pub fn new(tokens: Vec<Token>) -> (p: Parser)
        requires
            wf_tokens(tokens@),
        ensures
            p.toks() == tokens@,
            p.pos() == 0,
            p.errs() =~= Seq::<SigM>::empty(),
            p.wfp(),
    {
        let p = Parser { tokens, current: 0, errors: Vec::new() };
        proof {
            assert(p.errs() =~= Seq::<SigM>::empty());
        }
        p
    }

    /// The diagnostics recorded so far, in order.
    pub fn errors(&self) -> (r: &Vec<LoxResult>)
        ensures
            r@.map_values(|e: LoxResult| e@) == self.errs(),
    {
        &self.errors
    }

    /// Whether any diagnostic was recorded.
    pub fn had_error(&self) -> (r: bool)
        ensures
            r == (self.errs().len() > 0),
    {
        self.errors.len() > 0
    }

    fn peek_type(&self) -> (t: TokenType)
        requires
            self.wfp(),
        ensures
            t == pk(self.toks(), self.pos()),
    {
        self.tokens[self.current].token_type
    }

    fn peek_clone(&self) -> (t: Token)
        requires
            self.wfp(),
        ensures
            t == self.toks()[self.pos()],
    {
        self.tokens[self.current].clone()
    }

    /// Consumes the current token, which must not be the end-of-input
    /// marker.
    fn bump(&mut self) -> (t: Token)
        requires
            old(self).wfp(),
            pk(old(self).toks(), old(self).pos()) != TokenType::Eof,
        ensures
            t == old(self).toks()[old(self).pos()],
            final(self).tokens == old(self).tokens,
            final(self).errors == old(self).errors,
            final(self).pos() == old(self).pos() + 1,
            final(self).wfp(),
    {
        let n = self.tokens.len();
        let t = self.tokens[self.current].clone();
        proof {
            assert(self.current as int != self.tokens@.len() - 1);
            assert(self.current + 1 <= n);
        }
        self.current = self.current + 1;
        t
    }

    /// `expression` — the whole precedence ladder.
    #[verifier::rlimit(100)]
    #[verifier::spinoff_prover]
    pub fn expression(&mut self) -> (r: Result<Expr, LoxResult>)
        requires
            old(self).wfp(),
        ensures
            final(self).tokens == old(self).tokens,
            final(self).errors == old(self).errors,
            final(self).wfp(),
            old(self).pos() <= final(self).pos(),
            r is Ok ==> old(self).pos() < final(self).pos(),
            ({
                let (sr, j) = sp_expression(old(self).toks(), old(self).pos());
                final(self).pos() == j && er_match(r, sr)
            }),
        decreases old(self).toks().len() - old(self).pos(), 18int,
    {
        proof {
            reveal(sp_expression);
            reveal(sp_assignment);
        }
        self.assignment()
    }

    #[verifier::rlimit(100)]
    #[verifier::spinoff_prover]
    fn assignment(&mut self) -> (r: Result<Expr, LoxResult>)
        requires
            old(self).wfp(),
        ensures
            final(self).tokens == old(self).tokens,
            final(self).errors == old(self).errors,
            final(self).wfp(),
            old(self).pos() <= final(self).pos(),
            r is Ok ==> old(self).pos() < final(self).pos(),
            ({
                let (sr, j) = sp_assignment(old(self).toks(), old(self).pos());
                final(self).pos() == j && er_match(r, sr)
            }),
        decreases old(self).toks().len() - old(self).pos(), 17int,
    {
        proof {
            reveal(sp_assignment);
            reveal(sp_or);
        }
        let e = match self.or() {
            Ok(e) => e,
            Err(x) => {
                return Err(x);
            },
        };
        if self.peek_type() == TokenType::Equal {
            let equals = self.bump();
            let v = match self.assignment() {
                Ok(v) => v,
                Err(x) => {
                    return Err(x);
                },
            };
            match e {
                Expr::Variable { name } => Ok(Expr::Assign { name, value: Box::new(v) }),
                _ => Err(
                    LoxResult::parse_error(equals, "Invalid assignment target.".to_owned()),
                ),
            }
        } else {
            Ok(e)
        }
    }

    #[verifier::rlimit(100)]
    #[verifier::spinoff_prover]
    fn or(&mut self) -> (r: Result<Expr, LoxResult>)
        requires
            old(self).wfp(),
        ensures
            final(self).tokens == old(self).tokens,
            final(self).errors == old(self).errors,
            final(self).wfp(),
            old(self).pos() <= final(self).pos(),
            r is Ok ==> old(self).pos() < final(self).pos(),
            ({
                let (sr, j) = sp_or(old(self).toks(), old(self).pos());
                final(self).pos() == j && er_match(r, sr)
            }),
        decreases old(self).toks().len() - old(self).pos(), 15int,
    {
        proof {
            reveal(sp_or);
            reveal(sp_and);
            reveal(sp_or_rest);
        }
        let e = match self.and() {
            Ok(e) => e,
            Err(x) => {
                return Err(x);
            },
        };
        self.or_rest(e)
    }

    #[verifier::rlimit(100)]
    #[verifier::spinoff_prover]
    fn or_rest(&mut self, left: Expr) -> (r: Result<Expr, LoxResult>)
        requires
            old(self).wfp(),
        ensures
            final(self).tokens == old(self).tokens,
            final(self).errors == old(self).errors,
            final(self).wfp(),
            old(self).pos() <= final(self).pos(),
            ({
                let (sr, j) = sp_or_rest(old(self).toks(), old(self).pos(), left@);
                final(self).pos() == j && er_match(r, sr)
            }),
        decreases old(self).toks().len() - old(self).pos(), 14int,
    {
        proof {
            reveal(sp_or_rest);
            reveal(sp_and);
        }
        if self.peek_type() == TokenType::Or {
            let op = self.bump();
            let right = match self.and() {
                Ok(e) => e,
                Err(x) => {
                    return Err(x);
                },
            };
            let built = Expr::Logical {
                left: Box::new(left),
                operator: op,
                right: Box::new(right),
            };
            self.or_rest(built)
        } else {
            Ok(left)
        }
    }

    #[verifier::rlimit(100)]
    #[verifier::spinoff_prover]
    fn and(&mut self) -> (r: Result<Expr, LoxResult>)
        requires
            old(self).wfp(),
        ensures
            final(self).tokens == old(self).tokens,
            final(self).errors == old(self).errors,
            final(self).wfp(),
            old(self).pos() <= final(self).pos(),
            r is Ok ==> old(self).pos() < final(self).pos(),
            ({
                let (sr, j) = sp_and(old(self).toks(), old(self).pos());
                final(self).pos() == j && er_match(r, sr)
            }),
        decreases old(self).toks().len() - old(self).pos(), 13int,
    {
        proof {
            reveal(sp_and);
            reveal(sp_equality);
            reveal(sp_and_rest);
        }
        let e = match self.equality() {
            Ok(e) => e,
            Err(x) => {
                return Err(x);
            },
        };
        self.and_rest(e)
    }

    #[verifier::rlimit(100)]
    #[verifier::spinoff_prover]
    fn and_rest(&mut self, left: Expr) -> (r: Result<Expr, LoxResult>)
        requires
            old(self).wfp(),
        ensures
            final(self).tokens == old(self).tokens,
            final(self).errors == old(self).errors,
            final(self).wfp(),
            old(self).pos() <= final(self).pos(),
            ({
                let (sr, j) = sp_and_rest(old(self).toks(), old(self).pos(), left@);
                final(self).pos() == j && er_match(r, sr)
            }),
        decreases old(self).toks().len() - old(self).pos(), 12int,
    {
        proof {
            reveal(sp_and_rest);
            reveal(sp_equality);
        }
        if self.peek_type() == TokenType::And {
            let op = self.bump();
            let right = match self.equality() {
                Ok(e) => e,
                Err(x) => {
                    return Err(x);
                },
            };
            let built = Expr::Logical {
                left: Box::new(left),
                operator: op,
                right: Box::new(right),
            };
            self.and_rest(built)
        } else {
            Ok(left)
        }
    }

    #[verifier::rlimit(100)]
    #[verifier::spinoff_prover]
    fn equality(&mut self) -> (r: Result<Expr, LoxResult>)
        requires
            old(self).wfp(),
        ensures
            final(self).tokens == old(self).tokens,
            final(self).errors == old(self).errors,
            final(self).wfp(),
            old(self).pos() <= final(self).pos(),
            r is Ok ==> old(self).pos() < final(self).pos(),
            ({
                let (sr, j) = sp_equality(old(self).toks(), old(self).pos());
                final(self).pos() == j && er_match(r, sr)
            }),
        decreases old(self).toks().len() - old(self).pos(), 11int,
    {
        proof {
            reveal(sp_equality);
            reveal(sp_comparison);
            reveal(sp_equality_rest);
        }
        let e = match self.comparison() {
            Ok(e) => e,
            Err(x) => {
                return Err(x);
            },
        };
        self.equality_rest(e)
    }

    #[verifier::rlimit(100)]
    #[verifier::spinoff_prover]
    fn equality_rest(&mut self, left: Expr) -> (r: Result<Expr, LoxResult>)
        requires
            old(self).wfp(),
        ensures
            final(self).tokens == old(self).tokens,
            final(self).errors == old(self).errors,
            final(self).wfp(),
            old(self).pos() <= final(self).pos(),
            ({
                let (sr, j) = sp_equality_rest(old(self).toks(), old(self).pos(), left@);
                final(self).pos() == j && er_match(r, sr)
            }),
        decreases old(self).toks().len() - old(self).pos(), 10int,
    {
        proof {
            reveal(sp_equality_rest);
            reveal(sp_comparison);
        }
        let t = self.peek_type();
        if t == TokenType::BangEqual || t == TokenType::EqualEqual {
            let op = self.bump();
            let right = match self.comparison() {
                Ok(e) => e,
                Err(x) => {
                    return Err(x);
                },
            };
            let built = Expr::Binary {
                left: Box::new(left),
                operator: op,
                right: Box::new(right),
            };
            self.equality_rest(built)
        } else {
            Ok(left)
        }
    }

    #[verifier::rlimit(100)]
    #[verifier::spinoff_prover]
    fn comparison(&mut self) -> (r: Result<Expr, LoxResult>)
        requires
            old(self).wfp(),
        ensures
            final(self).tokens == old(self).tokens,
            final(self).errors == old(self).errors,
            final(self).wfp(),
            old(self).pos() <= final(self).pos(),
            r is Ok ==> old(self).pos() < final(self).pos(),
            ({
                let (sr, j) = sp_comparison(old(self).toks(), old(self).pos());
                final(self).pos() == j && er_match(r, sr)
            }),
        decreases old(self).toks().len() - old(self).pos(), 9int,
    {
        proof {
            reveal(sp_comparison);
            reveal(sp_term);
            reveal(sp_comparison_rest);
        }
        let e = match self.term() {
            Ok(e) => e,
            Err(x) => {
                return Err(x);
            },
        };
        self.comparison_rest(e)
    }

    #[verifier::rlimit(100)]
    #[verifier::spinoff_prover]
    fn comparison_rest(&mut self, left: Expr) -> (r: Result<Expr, LoxResult>)
        requires
            old(self).wfp(),
        ensures
            final(self).tokens == old(self).tokens,
            final(self).errors == old(self).errors,
            final(self).wfp(),
            old(self).pos() <= final(self).pos(),
            ({
                let (sr, j) = sp_comparison_rest(old(self).toks(), old(self).pos(), left@);
                final(self).pos() == j && er_match(r, sr)
            }),
        decreases old(self).toks().len() - old(self).pos(), 8int,
    {
        proof {
            reveal(sp_comparison_rest);
            reveal(sp_term);
        }
        let t = self.peek_type();
        if t == TokenType::Greater || t == TokenType::GreaterEqual || t == TokenType::Less || t
            == TokenType::LessEqual {
            let op = self.bump();
            let right = match self.term() {
                Ok(e) => e,
                Err(x) => {
                    return Err(x);
                },
            };
            let built = Expr::Binary {
                left: Box::new(left),
                operator: op,
                right: Box::new(right),
            };
            self.comparison_rest(built)
        } else {
            Ok(left)
        }
    }

    #[verifier::rlimit(100)]
    #[verifier::spinoff_prover]
    fn term(&mut self) -> (r: Result<Expr, LoxResult>)
        requires
            old(self).wfp(),
        ensures
            final(self).tokens == old(self).tokens,
            final(self).errors == old(self).errors,
            final(self).wfp(),
            old(self).pos() <= final(self).pos(),
            r is Ok ==> old(self).pos() < final(self).pos(),
            ({
                let (sr, j) = sp_term(old(self).toks(), old(self).pos());
                final(self).pos() == j && er_match(r, sr)
            }),
        decreases old(self).toks().len() - old(self).pos(), 7int,
    {
        proof {
            reveal(sp_term);
            reveal(sp_factor);
            reveal(sp_term_rest);
        }
        let e = match self.factor() {
            Ok(e) => e,
            Err(x) => {
                return Err(x);
            },
        };
        self.term_rest(e)
    }

    #[verifier::rlimit(100)]
    #[verifier::spinoff_prover]
    fn term_rest(&mut self, left: Expr) -> (r: Result<Expr, LoxResult>)
        requires
            old(self).wfp(),
        ensures
            final(self).tokens == old(self).tokens,
            final(self).errors == old(self).errors,
            final(self).wfp(),
            old(self).pos() <= final(self).pos(),
            ({
                let (sr, j) = sp_term_rest(old(self).toks(), old(self).pos(), left@);
                final(self).pos() == j && er_match(r, sr)
            }),
        decreases old(self).toks().len() - old(self).pos(), 6int,
    {
        proof {
            reveal(sp_term_rest);
            reveal(sp_factor);
        }
        let t = self.peek_type();
        if t == TokenType::Minus || t == TokenType::Plus {
            let op = self.bump();
            let right = match self.factor() {
                Ok(e) => e,
                Err(x) => {
                    return Err(x);
                },
            };
            let built = Expr::Binary {
                left: Box::new(left),
                operator: op,
                right: Box::new(right),
            };
            self.term_rest(built)
        } else {
            Ok(left)
        }
    }

    #[verifier::rlimit(100)]
    #[verifier::spinoff_prover]
    fn factor(&mut self) -> (r: Result<Expr, LoxResult>)
        requires
            old(self).wfp(),
        ensures
            final(self).tokens == old(self).tokens,
            final(self).errors == old(self).errors,
            final(self).wfp(),
            old(self).pos() <= final(self).pos(),
            r is Ok ==> old(self).pos() < final(self).pos(),
            ({
                let (sr, j) = sp_factor(old(self).toks(), old(self).pos());
                final(self).pos() == j && er_match(r, sr)
            }),
        decreases old(self).toks().len() - old(self).pos(), 5int,
    {
        proof {
            reveal(sp_factor);
            reveal(sp_unary);
            reveal(sp_factor_rest);
        }
        let e = match self.unary() {
            Ok(e) => e,
            Err(x) => {
                return Err(x);
            },
        };
        self.factor_rest(e)
    }

    #[verifier::rlimit(100)]
    #[verifier::spinoff_prover]
    fn factor_rest(&mut self, left: Expr) -> (r: Result<Expr, LoxResult>)
        requires
            old(self).wfp(),
        ensures
            final(self).tokens == old(self).tokens,
            final(self).errors == old(self).errors,
            final(self).wfp(),
            old(self).pos() <= final(self).pos(),
            ({
                let (sr, j) = sp_factor_rest(old(self).toks(), old(self).pos(), left@);
                final(self).pos() == j && er_match(r, sr)
            }),
        decreases old(self).toks().len() - old(self).pos(), 4int,
    {
        proof {
            reveal(sp_factor_rest);
            reveal(sp_unary);
        }
        let t = self.peek_type();
        if t == TokenType::Slash || t == TokenType::Star {
            let op = self.bump();
            let right = match self.unary() {
                Ok(e) => e,
                Err(x) => {
                    return Err(x);
                },
            };
            let built = Expr::Binary {
                left: Box::new(left),
                operator: op,
                right: Box::new(right),
            };
            self.factor_rest(built)
        } else {
            Ok(left)
        }
    }

    #[verifier::rlimit(100)]
    #[verifier::spinoff_prover]
    fn unary(&mut self) -> (r: Result<Expr, LoxResult>)
        requires
            old(self).wfp(),
        ensures
            final(self).tokens == old(self).tokens,
            final(self).errors == old(self).errors,
            final(self).wfp(),
            old(self).pos() <= final(self).pos(),
            r is Ok ==> old(self).pos() < final(self).pos(),
            ({
                let (sr, j) = sp_unary(old(self).toks(), old(self).pos());
                final(self).pos() == j && er_match(r, sr)
            }),
        decreases old(self).toks().len() - old(self).pos(), 3int,
    {
        proof {
            reveal(sp_unary);
            reveal(sp_call);
        }
        let t = self.peek_type();
        if t == TokenType::Bang || t == TokenType::Minus {
            let op = self.bump();
            let right = match self.unary() {
                Ok(e) => e,
                Err(x) => {
                    return Err(x);
                },
            };
            Ok(Expr::Unary { operator: op, right: Box::new(right) })
        } else {
            self.call()
        }
    }

    #[verifier::rlimit(100)]
    #[verifier::spinoff_prover]
    fn call(&mut self) -> (r: Result<Expr, LoxResult>)
        requires
            old(self).wfp(),
        ensures
            final(self).tokens == old(self).tokens,
            final(self).errors == old(self).errors,
            final(self).wfp(),
            old(self).pos() <= final(self).pos(),
            r is Ok ==> old(self).pos() < final(self).pos(),
            ({
                let (sr, j) = sp_call(old(self).toks(), old(self).pos());
                final(self).pos() == j && er_match(r, sr)
            }),
        decreases old(self).toks().len() - old(self).pos(), 2int,
    {
        proof {
            reveal(sp_call);
            reveal(sp_primary);
            reveal(sp_call_rest);
        }
        let e = match self.primary() {
            Ok(e) => e,
            Err(x) => {
                return Err(x);
            },
        };
        self.call_rest(e)
    }

    #[verifier::rlimit(100)]
    #[verifier::spinoff_prover]
    fn call_rest(&mut self, callee: Expr) -> (r: Result<Expr, LoxResult>)
        requires
            old(self).wfp(),
        ensures
            final(self).tokens == old(self).tokens,
            final(self).errors == old(self).errors,
            final(self).wfp(),
            old(self).pos() <= final(self).pos(),
            ({
                let (sr, j) = sp_call_rest(old(self).toks(), old(self).pos(), callee@);
                final(self).pos() == j && er_match(r, sr)
            }),
        decreases old(self).toks().len() - old(self).pos(), 1int,
    {
        proof {
            reveal(sp_call_rest);
            reveal(sp_finish_call);
        }
        if self.peek_type() == TokenType::LeftParen {
            let _ = self.bump();
            let e = match self.finish_call(callee) {
                Ok(e) => e,
                Err(x) => {
                    return Err(x);
                },
            };
            self.call_rest(e)
        } else {
            Ok(callee)
        }
    }

    #[verifier::rlimit(60)]
    fn finish_call(&mut self, callee: Expr) -> (r: Result<Expr, LoxResult>)
        requires
            old(self).wfp(),
        ensures
            final(self).tokens == old(self).tokens,
            final(self).errors == old(self).errors,
            final(self).wfp(),
            old(self).pos() <= final(self).pos(),
            r is Ok ==> old(self).pos() < final(self).pos(),
            ({
                let (sr, j) = sp_finish_call(old(self).toks(), old(self).pos(), callee@);
                final(self).pos() == j && er_match(r, sr)
            }),
        decreases old(self).toks().len() - old(self).pos(), 19int,
    {
        proof {
            reveal(sp_finish_call);
            reveal(sp_expression);
            reveal(sp_args_rest);
        }
        if self.peek_type() == TokenType::RightParen {
            let paren = self.bump();
            proof {
                assert(exprs_view(Seq::<Expr>::empty()) =~= Seq::<ExprM>::empty());
            }
            return Ok(
                Expr::Call { callee: Box::new(callee), paren, arguments: Vec::new() },
            );
        }
        let a0 = match self.expression() {
            Ok(e) => e,
            Err(x) => {
                return Err(x);
            },
        };
        let mut args: Vec<Expr> = Vec::new();
        args.push(a0);
        proof {
            assert(args@.drop_first() =~= Seq::<Expr>::empty());
            assert(exprs_view(Seq::<Expr>::empty()) == Seq::<ExprM>::empty());
            assert(exprs_view(args@) =~= seq![args@[0]@]);
        }
        self.args_rest(callee, args)
    }

    #[verifier::rlimit(60)]
    fn args_rest(&mut self, callee: Expr, args: Vec<Expr>) -> (r: Result<Expr, LoxResult>)
        requires
            old(self).wfp(),
            args@.len() >= 1,
        ensures
            final(self).tokens == old(self).tokens,
            final(self).errors == old(self).errors,
            final(self).wfp(),
            old(self).pos() <= final(self).pos(),
            r is Ok ==> old(self).pos() < final(self).pos(),
            ({
                let (sr, j) = sp_args_rest(
                    old(self).toks(),
                    old(self).pos(),
                    callee@,
                    exprs_view(args@),
                );
                final(self).pos() == j && er_match(r, sr)
            }),
        decreases old(self).toks().len() - old(self).pos(), 16int,
    {
        proof {
            reveal(sp_args_rest);
            reveal(sp_expression);
        }
        proof {
            crate::expr::lemma_exprs_view_len(args@);
        }
        let t = self.peek_type();
        if t == TokenType::Comma {
            let _ = self.bump();
            if args.len() >= 255 {
                let at = self.peek_clone();
                return Err(
                    LoxResult::parse_error(
                        at,
                        "Can't have more than 255 parameters.".to_owned(),
                    ),
                );
            }
            let a = match self.expression() {
                Ok(e) => e,
                Err(x) => {
                    return Err(x);
                },
            };
            let mut args2 = args;
            args2.push(a);
            proof {
                crate::expr::lemma_exprs_view_push(args2@.drop_last(), args2@.last());
                assert(args2@.drop_last() =~= args@);
            }
            self.args_rest(callee, args2)
        } else if t == TokenType::RightParen {
            let paren = self.bump();
            Ok(Expr::Call { callee: Box::new(callee), paren, arguments: args })
        } else {
            let at = self.peek_clone();
            Err(LoxResult::parse_error(at, "Expect ')' after arguments.".to_owned()))
        }
    }

    #[verifier::rlimit(60)]
    fn primary(&mut self) -> (r: Result<Expr, LoxResult>)
        requires
            old(self).wfp(),
        ensures
            final(self).tokens == old(self).tokens,
            final(self).errors == old(self).errors,
            final(self).wfp(),
            old(self).pos() <= final(self).pos(),
            r is Ok ==> old(self).pos() < final(self).pos(),
            ({
                let (sr, j) = sp_primary(old(self).toks(), old(self).pos());
                final(self).pos() == j && er_match(r, sr)
            }),
        decreases old(self).toks().len() - old(self).pos(), 0int,
    {
        proof {
            reveal(sp_primary);
            reveal(sp_expression);
        }
        let t = self.peek_type();
        if t == TokenType::False {
            let _ = self.bump();
            Ok(Expr::Literal { value: Literal::Bool(false) })
        } else if t == TokenType::True {
            let _ = self.bump();
            Ok(Expr::Literal { value: Literal::Bool(true) })
        } else if t == TokenType::Nil {
            let _ = self.bump();
            Ok(Expr::Literal { value: Literal::Nil })
        } else if t == TokenType::Number || t == TokenType::Str {
            let tok = self.peek_clone();
            match tok.literal {
                Some(l) => {
                    let _ = self.bump();
                    Ok(Expr::Literal { value: l })
                },
                None => Err(
                    LoxResult::parse_error(tok, "Expect expression".to_owned()),
                ),
            }
        } else if t == TokenType::Identifier {
            let name = self.bump();
            Ok(Expr::Variable { name })
        } else if t == TokenType::LeftParen {
            let _ = self.bump();
            let e = match self.expression() {
                Ok(e) => e,
                Err(x) => {
                    return Err(x);
                },
            };
            if self.peek_type() == TokenType::RightParen {
                let _ = self.bump();
                Ok(Expr::Grouping { expression: Box::new(e) })
            } else {
                let at = self.peek_clone();
                Err(LoxResult::parse_error(at, "Expect ')' after expression.".to_owned()))
            }
        } else {
            let at = self.peek_clone();
            Err(LoxResult::parse_error(at, "Expect expression".to_owned()))
        }
    }
}


impl Parser {
    /// Panic-mode recovery, as `sp_synchronize` prescribes.
    fn synchronize(&mut self)
        requires
            old(self).wfp(),
        ensures
            final(self).tokens == old(self).tokens,
            final(self).errors == old(self).errors,
            final(self).wfp(),
            old(self).pos() <= final(self).pos(),
            final(self).pos() == sp_synchronize(old(self).toks(), old(self).pos()),
            pk(old(self).toks(), old(self).pos()) != TokenType::Eof ==> old(self).pos() < final(self).pos(),
    {
        if self.peek_type() == TokenType::Eof {
            return;
        }
        let _ = self.bump();
        proof {
            lemma_sync_loop_ge(old(self).toks(), old(self).pos() + 1);
        }
        loop
            invariant
                self.wfp(),
                self.tokens == old(self).tokens,
                self.errors == old(self).errors,
                1 <= self.pos(),
                old(self).pos() < self.pos(),
                sp_sync_loop(old(self).toks(), self.pos()) == sp_synchronize(
                    old(self).toks(),
                    old(self).pos(),
                ),
                sp_sync_loop(old(self).toks(), self.pos()) >= self.pos(),
            decreases self.toks().len() - self.pos(),
        {
            let t = self.peek_type();
            if t == TokenType::Eof {
                return;
            }
            let prev = self.tokens[self.current - 1].token_type;
            if prev == TokenType::Semicolon {
                return;
            }
            if t == TokenType::Class || t == TokenType::Fun || t == TokenType::Var || t
                == TokenType::For || t == TokenType::If || t == TokenType::While || t
                == TokenType::Print || t == TokenType::Return {
                return;
            }
            let _ = self.bump();
            proof {
                lemma_sync_loop_ge(old(self).toks(), self.pos());
            }
        }
    }

    /// `var NAME ( = initializer )? ;`, as `sp_var_declaration` prescribes.
    #[verifier::rlimit(100)]
    #[verifier::spinoff_prover]
    fn var_declaration(&mut self) -> (r: Result<Stmt, LoxResult>)
        requires
            old(self).wfp(),
        ensures
            final(self).tokens == old(self).tokens,
            final(self).errors == old(self).errors,
            final(self).wfp(),
            old(self).pos() <= final(self).pos(),
            r is Ok ==> old(self).pos() < final(self).pos(),
            ({
                let (sr, j) = sp_var_declaration(old(self).toks(), old(self).pos());
                final(self).pos() == j && st_match(r, sr)
            }),
        decreases old(self).toks().len() - old(self).pos(), 20int,
    {
        proof {
            reveal(sp_var_declaration);
            reveal(sp_expression);
        }
        if self.peek_type() != TokenType::Identifier {
            let at = self.peek_clone();
            return Err(LoxResult::parse_error(at, "Expect variable name.".to_owned()));
        }
        let name = self.bump();
        if self.peek_type() == TokenType::Equal {
            let _ = self.bump();
            let e = match self.expression() {
                Ok(e) => e,
                Err(x) => {
                    return Err(x);
                },
            };
            if self.peek_type() == TokenType::Semicolon {
                let _ = self.bump();
                Ok(Stmt::Var { name, initializer: Some(Box::new(e)) })
            } else {
                let at = self.peek_clone();
                Err(
                    LoxResult::parse_error(
                        at,
                        "Expect ';' after variable declaration.".to_owned(),
                    ),
                )
            }
        } else {
            if self.peek_type() == TokenType::Semicolon {
                let _ = self.bump();
                Ok(Stmt::Var { name, initializer: None })
            } else {
                let at = self.peek_clone();
                Err(
                    LoxResult::parse_error(
                        at,
                        "Expect ';' after variable declaration.".to_owned(),
                    ),
                )
            }
        }
    }

    /// `print expression ;`, as `sp_print_statement` prescribes.
    #[verifier::rlimit(100)]
    #[verifier::spinoff_prover]
    fn print_statement(&mut self) -> (r: Result<Stmt, LoxResult>)
        requires
            old(self).wfp(),
        ensures
            final(self).tokens == old(self).tokens,
            final(self).errors == old(self).errors,
            final(self).wfp(),
            old(self).pos() <= final(self).pos(),
            r is Ok ==> old(self).pos() < final(self).pos(),
            ({
                let (sr, j) = sp_print_statement(old(self).toks(), old(self).pos());
                final(self).pos() == j && st_match(r, sr)
            }),
        decreases old(self).toks().len() - old(self).pos(), 20int,
    {
        proof {
            reveal(sp_print_statement);
            reveal(sp_expression);
        }
        let e = match self.expression() {
            Ok(e) => e,
            Err(x) => {
                return Err(x);
            },
        };
        if self.peek_type() == TokenType::Semicolon {
            let _ = self.bump();
            Ok(Stmt::Print { expression: Box::new(e) })
        } else {
            let at = self.peek_clone();
            Err(LoxResult::parse_error(at, "Expect ';' after value".to_owned()))
        }
    }

    /// `expression ;`, as `sp_expression_statement` prescribes.
    #[verifier::rlimit(100)]
    #[verifier::spinoff_prover]
    fn expression_statement(&mut self) -> (r: Result<Stmt, LoxResult>)
        requires
            old(self).wfp(),
        ensures
            final(self).tokens == old(self).tokens,
            final(self).errors == old(self).errors,
            final(self).wfp(),
            old(self).pos() <= final(self).pos(),
            r is Ok ==> old(self).pos() < final(self).pos(),
            ({
                let (sr, j) = sp_expression_statement(old(self).toks(), old(self).pos());
                final(self).pos() == j && st_match(r, sr)
            }),
        decreases old(self).toks().len() - old(self).pos(), 20int,
    {
        proof {
            reveal(sp_expression_statement);
            reveal(sp_expression);
        }
        let e = match self.expression() {
            Ok(e) => e,
            Err(x) => {
                return Err(x);
            },
        };
        if self.peek_type() == TokenType::Semicolon {
            let _ = self.bump();
            Ok(Stmt::Expression { expression: Box::new(e) })
        } else {
            let at = self.peek_clone();
            Err(LoxResult::parse_error(at, "Expect ';' after value".to_owned()))
        }
    }

    /// `return ( value )? ;`, entered at the `return` keyword itself, as
    /// `sp_return_statement` prescribes.
    #[verifier::rlimit(100)]
    #[verifier::spinoff_prover]
    fn return_statement(&mut self) -> (r: Result<Stmt, LoxResult>)
        requires
            old(self).wfp(),
            pk(old(self).toks(), old(self).pos()) == TokenType::Return,
        ensures
            final(self).tokens == old(self).tokens,
            final(self).errors == old(self).errors,
            final(self).wfp(),
            old(self).pos() <= final(self).pos(),
            r is Ok ==> old(self).pos() < final(self).pos(),
            ({
                let (sr, j) = sp_return_statement(old(self).toks(), old(self).pos());
                final(self).pos() == j && st_match(r, sr)
            }),
        decreases old(self).toks().len() - old(self).pos(), 20int,
    {
        proof {
            reveal(sp_return_statement);
            reveal(sp_expression);
        }
        let keyword = self.bump();
        if self.peek_type() == TokenType::Semicolon {
            let _ = self.bump();
            return Ok(Stmt::Return { keyword, value: None });
        }
        let e = match self.expression() {
            Ok(e) => e,
            Err(x) => {
                return Err(x);
            },
        };
        if self.peek_type() == TokenType::Semicolon {
            let _ = self.bump();
            Ok(Stmt::Return { keyword, value: Some(e) })
        } else {
            let at = self.peek_clone();
            Err(LoxResult::parse_error(at, "Expect ';' after return value".to_owned()))
        }
    }

    /// `while ( condition ) body`, as `sp_while_statement` prescribes.
    #[verifier::rlimit(100)]
    #[verifier::spinoff_prover]
    fn while_statement(&mut self) -> (r: Result<Stmt, LoxResult>)
        requires
            old(self).wfp(),
        ensures
            final(self).tokens == old(self).tokens,
            final(self).wfp(),
            old(self).pos() <= final(self).pos(),
            r is Ok ==> old(self).pos() < final(self).pos(),
            ({
                let (sr, serrs, j) = sp_while_statement(old(self).toks(), old(self).pos());
                &&& final(self).pos() == j
                &&& st_match(r, sr)
                &&& final(self).errs() == old(self).errs() + serrs
            }),
        decreases old(self).toks().len() - old(self).pos(), 20int,
    {
        proof {
            reveal(sp_while_statement);
            reveal(sp_expression);
            reveal(sp_statement);
        }
        proof {
            assert(old(self).errs() + Seq::<SigM>::empty() =~= old(self).errs());
        }
        if self.peek_type() != TokenType::LeftParen {
            let at = self.peek_clone();
            return Err(LoxResult::parse_error(at, "Expect '(' after 'while'.".to_owned()));
        }
        let _ = self.bump();
        let c = match self.expression() {
            Ok(e) => e,
            Err(x) => {
                return Err(x);
            },
        };
        if self.peek_type() != TokenType::RightParen {
            let at = self.peek_clone();
            return Err(LoxResult::parse_error(at, "Expect ')' after condition.".to_owned()));
        }
        let _ = self.bump();
        let body = match self.statement() {
            Ok(b) => b,
            Err(x) => {
                return Err(x);
            },
        };
        Ok(Stmt::While { condition: Box::new(c), body: Box::new(body) })
    }

    /// `if ( condition ) then ( else other )?`, as `sp_if_statement`
    /// prescribes.
    #[verifier::rlimit(100)]
    #[verifier::spinoff_prover]
    fn if_statement(&mut self) -> (r: Result<Stmt, LoxResult>)
        requires
            old(self).wfp(),
        ensures
            final(self).tokens == old(self).tokens,
            final(self).wfp(),
            old(self).pos() <= final(self).pos(),
            r is Ok ==> old(self).pos() < final(self).pos(),
            ({
                let (sr, serrs, j) = sp_if_statement(old(self).toks(), old(self).pos());
                &&& final(self).pos() == j
                &&& st_match(r, sr)
                &&& final(self).errs() == old(self).errs() + serrs
            }),
        decreases old(self).toks().len() - old(self).pos(), 20int,
    {
        proof {
            reveal(sp_if_statement);
            reveal(sp_expression);
            reveal(sp_statement);
        }
        proof {
            assert(old(self).errs() + Seq::<SigM>::empty() =~= old(self).errs());
        }
        if self.peek_type() != TokenType::LeftParen {
            let at = self.peek_clone();
            return Err(LoxResult::parse_error(at, "Expect '(' after 'if'.".to_owned()));
        }
        let _ = self.bump();
        let c = match self.expression() {
            Ok(e) => e,
            Err(x) => {
                return Err(x);
            },
        };
        if self.peek_type() != TokenType::RightParen {
            let at = self.peek_clone();
            return Err(LoxResult::parse_error(at, "Expect ')' after if condition.".to_owned()));
        }
        let _ = self.bump();
        let then_branch = match self.statement() {
            Ok(b) => b,
            Err(x) => {
                return Err(x);
            },
        };
        if self.peek_type() == TokenType::Else {
            let _ = self.bump();
            let els = match self.statement() {
                Ok(b) => b,
                Err(x) => {
                    return Err(x);
                },
            };
            Ok(
                Stmt::If {
                    condition: Box::new(c),
                    then_branch: Box::new(then_branch),
                    else_branch: Some(Box::new(els)),
                },
            )
        } else {
            Ok(
                Stmt::If {
                    condition: Box::new(c),
                    then_branch: Box::new(then_branch),
                    else_branch: None,
                },
            )
        }
    }

    /// `for ( init ; cond ; incr ) body`, desugared into a `while` loop as
    /// `sp_for_statement` prescribes.
    #[verifier::rlimit(100)]
    #[verifier::spinoff_prover]
    fn for_statement(&mut self) -> (r: Result<Stmt, LoxResult>)
        requires
            old(self).wfp(),
        ensures
            final(self).tokens == old(self).tokens,
            final(self).wfp(),
            old(self).pos() <= final(self).pos(),
            r is Ok ==> old(self).pos() < final(self).pos(),
            ({
                let (sr, serrs, j) = sp_for_statement(old(self).toks(), old(self).pos());
                &&& final(self).pos() == j
                &&& st_match(r, sr)
                &&& final(self).errs() == old(self).errs() + serrs
            }),
        decreases old(self).toks().len() - old(self).pos(), 20int,
    {
        proof {
            reveal(sp_for_statement);
            reveal(sp_var_declaration);
            reveal(sp_expression_statement);
            reveal(sp_expression);
            reveal(sp_statement);
        }
        proof {
            assert(old(self).errs() + Seq::<SigM>::empty() =~= old(self).errs());
        }
        if self.peek_type() != TokenType::LeftParen {
            let at = self.peek_clone();
            return Err(LoxResult::parse_error(at, "Expect '(' after 'for'.".to_owned()));
        }
        let _ = self.bump();
        let t0 = self.peek_type();
        let initializer: Option<Stmt> = if t0 == TokenType::Semicolon {
            let _ = self.bump();
            None
        } else if t0 == TokenType::Var {
            let _ = self.bump();
            match self.var_declaration() {
                Ok(st) => Some(st),
                Err(x) => {
                    return Err(x);
                },
            }
        } else {
            match self.expression_statement() {
                Ok(st) => Some(st),
                Err(x) => {
                    return Err(x);
                },
            }
        };
        let condition: Option<Expr> = if self.peek_type() != TokenType::Semicolon {
            match self.expression() {
                Ok(c) => Some(c),
                Err(x) => {
                    return Err(x);
                },
            }
        } else {
            None
        };
        if self.peek_type() != TokenType::Semicolon {
            let at = self.peek_clone();
            return Err(LoxResult::parse_error(at, "Expect ';' after loop condition.".to_owned()));
        }
        let _ = self.bump();
        let increment: Option<Expr> = if self.peek_type() != TokenType::RightParen {
            match self.expression() {
                Ok(e) => Some(e),
                Err(x) => {
                    return Err(x);
                },
            }
        } else {
            None
        };
        if self.peek_type() != TokenType::RightParen {
            let at = self.peek_clone();
            return Err(LoxResult::parse_error(at, "Expect ')' after for clause.".to_owned()));
        }
        let _ = self.bump();
        let body = match self.statement() {
            Ok(b) => b,
            Err(x) => {
                return Err(x);
            },
        };
        let ghost body_m = body@;
        let body1 = match increment {
            Some(inc) => {
                let ghost inc_m = inc@;
                let mut v: Vec<Stmt> = Vec::new();
                v.push(body);
                v.push(Stmt::Expression { expression: Box::new(inc) });
                let ghost vm = v@;
                let blk = Stmt::Block { statements: v };
                proof {
                    assert(vm.drop_first() =~= seq![vm[1]]);
                    assert(seq![vm[1]].drop_first() =~= Seq::<Stmt>::empty());
                    assert(crate::stmt::stmts_view(Seq::<Stmt>::empty())
                        =~= Seq::<StmtM>::empty());
                    assert(vm[1]@ == (StmtM::Expression { expression: Box::new(inc_m) }));
                    assert(crate::stmt::stmts_view(seq![vm[1]]) =~= seq![vm[1]@]);
                    assert(crate::stmt::stmts_view(vm) =~= seq![body_m, StmtM::Expression {
                        expression: Box::new(inc_m),
                    }]);
                    assert(blk@ == (StmtM::Block {
                        statements: seq![body_m, StmtM::Expression {
                            expression: Box::new(inc_m),
                        }],
                    }));
                }
                blk
            },
            None => body,
        };
        let ghost body1_m = body1@;
        let cond1 = match condition {
            Some(c) => c,
            None => {
                let lit = Expr::Literal { value: Literal::Bool(true) };
                proof {
                    assert(lit@ == (ExprM::Literal { value: LitM::Bool(true) }));
                }
                lit
            },
        };
        let ghost cond1_m = cond1@;
        let w = Stmt::While { condition: Box::new(cond1), body: Box::new(body1) };
        proof {
            assert(w@ == (StmtM::While {
                condition: Box::new(cond1_m),
                body: Box::new(body1_m),
            }));
        }
        let ghost w_m = w@;
        let result = match initializer {
            Some(init) => {
                let ghost init_m = init@;
                let mut v: Vec<Stmt> = Vec::new();
                v.push(init);
                v.push(w);
                let ghost vm = v@;
                let blk = Stmt::Block { statements: v };
                proof {
                    assert(vm.drop_first() =~= seq![vm[1]]);
                    assert(seq![vm[1]].drop_first() =~= Seq::<Stmt>::empty());
                    assert(crate::stmt::stmts_view(Seq::<Stmt>::empty())
                        =~= Seq::<StmtM>::empty());
                    assert(crate::stmt::stmts_view(seq![vm[1]]) =~= seq![w_m]);
                    assert(crate::stmt::stmts_view(vm) =~= seq![init_m, w_m]);
                    assert(blk@ == (StmtM::Block { statements: seq![init_m, w_m] }));
                }
                blk
            },
            None => w,
        };
        Ok(result)
    }

    /// The parameter list of a function declaration, as `sp_param_list`
    /// prescribes.
    #[verifier::rlimit(100)]
    #[verifier::spinoff_prover]
    fn param_list(&mut self, acc: Vec<Token>) -> (r: Result<Vec<Token>, LoxResult>)
        requires
            old(self).wfp(),
        ensures
            final(self).tokens == old(self).tokens,
            final(self).errors == old(self).errors,
            final(self).wfp(),
            old(self).pos() <= final(self).pos(),
            ({
                let (sr, j) = sp_param_list(
                    old(self).toks(),
                    old(self).pos(),
                    crate::stmt::toks_view(acc@),
                );
                &&& final(self).pos() == j
                &&& match (r, sr) {
                    (Ok(ps), Ok(ms)) => crate::stmt::toks_view(ps@) == ms,
                    (Err(x), Err(sg)) => x@ == sg,
                    _ => false,
                }
            }),
        decreases old(self).toks().len() - old(self).pos(), 2int,
    {
        proof {
            reveal(sp_param_list);
        }
        if acc.len() >= 255 {
            let at = self.peek_clone();
            return Err(
                LoxResult::parse_error(at, "Can't have more than 255 parameters.".to_owned()),
            );
        }
        if self.peek_type() != TokenType::Identifier {
            let at = self.peek_clone();
            return Err(LoxResult::parse_error(at, "Expect parameter name.".to_owned()));
        }
        let t = self.bump();
        let ghost pre = acc@;
        let mut acc2 = acc;
        acc2.push(t);
        proof {
            assert(acc2@.drop_last() =~= pre);
            assert(crate::stmt::toks_view(acc2@) =~= crate::stmt::toks_view(pre).push(
                acc2@.last()@,
            ));
        }
        if self.peek_type() == TokenType::Comma {
            let _ = self.bump();
            self.param_list(acc2)
        } else {
            Ok(acc2)
        }
    }

    /// `fun NAME ( params ) { body }`, entered just past the `fun`
    /// keyword, as `sp_function` prescribes.
    #[verifier::rlimit(100)]
    #[verifier::spinoff_prover]
    fn function(&mut self) -> (r: Result<Stmt, LoxResult>)
        requires
            old(self).wfp(),
        ensures
            final(self).tokens == old(self).tokens,
            final(self).wfp(),
            old(self).pos() <= final(self).pos(),
            r is Ok ==> old(self).pos() < final(self).pos(),
            ({
                let (sr, serrs, j) = sp_function(old(self).toks(), old(self).pos());
                &&& final(self).pos() == j
                &&& st_match(r, sr)
                &&& final(self).errs() == old(self).errs() + serrs
            }),
        decreases old(self).toks().len() - old(self).pos(), 23int,
    {
        proof {
            reveal(sp_function);
            reveal(sp_param_list);
            reveal(sp_block);
        }
        proof {
            assert(old(self).errs() + Seq::<SigM>::empty() =~= old(self).errs());
        }
        if self.peek_type() != TokenType::Identifier {
            let at = self.peek_clone();
            return Err(
                LoxResult::parse_error(at, "Expect '(' after function name.".to_owned()),
            );
        }
        let name = self.bump();
        if self.peek_type() != TokenType::LeftParen {
            let at = self.peek_clone();
            return Err(
                LoxResult::parse_error(at, "Expect '(' after function name.".to_owned()),
            );
        }
        let _ = self.bump();
        let params: Vec<Token> = if self.peek_type() == TokenType::RightParen {
            proof {
                assert(crate::stmt::toks_view(Seq::<Token>::empty()) =~= Seq::<TokM>::empty());
            }
            Vec::new()
        } else {
            proof {
                assert(crate::stmt::toks_view(Seq::<Token>::empty()) =~= Seq::<TokM>::empty());
            }
            match self.param_list(Vec::new()) {
                Ok(ps) => ps,
                Err(x) => {
                    return Err(x);
                },
            }
        };
        if self.peek_type() != TokenType::RightParen {
            let at = self.peek_clone();
            return Err(LoxResult::parse_error(at, "Expect ')' after parameters.".to_owned()));
        }
        let _ = self.bump();
        if self.peek_type() != TokenType::LeftBrace {
            let at = self.peek_clone();
            return Err(
                LoxResult::parse_error(at, "Expect '{' before function body".to_owned()),
            );
        }
        let _ = self.bump();
        let body = match self.block() {
            Ok(b) => b,
            Err(x) => {
                return Err(x);
            },
        };
        Ok(Stmt::Function { name, params: Rc::new(params), body: Rc::new(body) })
    }

    /// The statements between `{` and `}`, as `sp_block` prescribes.
    #[verifier::rlimit(100)]
    #[verifier::spinoff_prover]
    fn block(&mut self) -> (r: Result<Vec<Stmt>, LoxResult>)
        requires
            old(self).wfp(),
        ensures
            final(self).tokens == old(self).tokens,
            final(self).wfp(),
            old(self).pos() <= final(self).pos(),
            ({
                let (sr, serrs, j) = sp_block(old(self).toks(), old(self).pos());
                &&& final(self).pos() == j
                &&& match (r, sr) {
                    (Ok(ss), Ok(ms)) => crate::stmt::stmts_view(ss@) == ms,
                    (Err(x), Err(sg)) => x@ == sg,
                    _ => false,
                }
                &&& final(self).errs() == old(self).errs() + serrs
            }),
        decreases old(self).toks().len() - old(self).pos(), 26int,
    {
        proof {
            reveal(sp_block);
            reveal(sp_declaration);
        }
        proof {
            assert(old(self).errs() + Seq::<SigM>::empty() =~= old(self).errs());
        }
        let t = self.peek_type();
        if t == TokenType::RightBrace {
            let _ = self.bump();
            proof {
                assert(crate::stmt::stmts_view(Seq::<Stmt>::empty()) =~= Seq::<StmtM>::empty());
            }
            return Ok(Vec::new());
        }
        if t == TokenType::Eof {
            let at = self.peek_clone();
            return Err(LoxResult::parse_error(at, "Expect '}' after a block".to_owned()));
        }
        let ghost entry = *old(self);
        let o = self.declaration();
        proof {
            let (o1, e1, j1) = sp_declaration(entry.toks(), entry.pos());
            let (r2, e2, j2) = sp_block(entry.toks(), j1);
            lemma_errs_assoc(entry.errs(), e1, e2);
        }
        let rest = match self.block() {
            Ok(ss) => ss,
            Err(x) => {
                return Err(x);
            },
        };
        match o {
            Some(st) => {
                let ghost pre = rest@;
                let mut ss = rest;
                ss.insert(0, st);
                proof {
                    assert(ss@.drop_first() =~= pre);
                    assert(crate::stmt::stmts_view(ss@) =~= seq![ss@[0]@] + crate::stmt::stmts_view(
                        pre,
                    ));
                }
                Ok(ss)
            },
            None => {
                proof {
                    assert(Seq::<StmtM>::empty() + crate::stmt::stmts_view(rest@)
                        =~= crate::stmt::stmts_view(rest@));
                }
                Ok(rest)
            },
        }
    }

    /// `statement`: dispatch on the leading keyword, as `sp_statement`
    /// prescribes.
    #[verifier::rlimit(100)]
    #[verifier::spinoff_prover]
    fn statement(&mut self) -> (r: Result<Stmt, LoxResult>)
        requires
            old(self).wfp(),
        ensures
            final(self).tokens == old(self).tokens,
            final(self).wfp(),
            old(self).pos() <= final(self).pos(),
            r is Ok ==> old(self).pos() < final(self).pos(),
            ({
                let (sr, serrs, j) = sp_statement(old(self).toks(), old(self).pos());
                &&& final(self).pos() == j
                &&& st_match(r, sr)
                &&& final(self).errs() == old(self).errs() + serrs
            }),
        decreases old(self).toks().len() - old(self).pos(), 22int,
    {
        proof {
            reveal(sp_statement);
            reveal(sp_for_statement);
            reveal(sp_if_statement);
            reveal(sp_print_statement);
            reveal(sp_return_statement);
            reveal(sp_while_statement);
            reveal(sp_block);
            reveal(sp_expression_statement);
        }
        proof {
            assert(old(self).errs() + Seq::<SigM>::empty() =~= old(self).errs());
        }
        let t = self.peek_type();
        if t == TokenType::For {
            let _ = self.bump();
            self.for_statement()
        } else if t == TokenType::If {
            let _ = self.bump();
            self.if_statement()
        } else if t == TokenType::Print {
            let _ = self.bump();
            self.print_statement()
        } else if t == TokenType::Return {
            self.return_statement()
        } else if t == TokenType::While {
            let _ = self.bump();
            self.while_statement()
        } else if t == TokenType::LeftBrace {
            let _ = self.bump();
            match self.block() {
                Ok(ss) => Ok(Stmt::Block { statements: ss }),
                Err(x) => Err(x),
            }
        } else {
            self.expression_statement()
        }
    }

    /// `declaration` with panic-mode recovery: a failed declaration
    /// records its diagnostic, resynchronizes, and contributes no
    /// statement, as `sp_declaration` prescribes.
    #[verifier::rlimit(100)]
    #[verifier::spinoff_prover]
    fn declaration(&mut self) -> (r: Option<Stmt>)
        requires
            old(self).wfp(),
        ensures
            final(self).tokens == old(self).tokens,
            final(self).wfp(),
            old(self).pos() <= final(self).pos(),
            pk(old(self).toks(), old(self).pos()) != TokenType::Eof ==> old(self).pos() < final(self).pos(),
            ({
                let (o, serrs, j) = sp_declaration(old(self).toks(), old(self).pos());
                &&& final(self).pos() == j
                &&& match (r, o) {
                    (Some(st), Some(m)) => st@ == m,
                    (None, None) => true,
                    _ => false,
                }
                &&& final(self).errs() == old(self).errs() + serrs
            }),
        decreases old(self).toks().len() - old(self).pos(), 24int,
    {
        proof {
            reveal(sp_declaration);
            reveal(sp_function);
            reveal(sp_var_declaration);
            reveal(sp_statement);
        }
        let t = self.peek_type();
        if t == TokenType::Fun {
            let _ = self.bump();
            match self.function() {
                Ok(st) => Some(st),
                Err(x) => {
                    let ghost mid = self.errs();
                    self.errors.push(x);
                    proof {
                        assert(self.errs() =~= mid.push(self.errors@.last()@));
                        let (fr, fe, fj) = sp_function(old(self).toks(), old(self).pos() + 1);
                        lemma_errs_push_right(old(self).errs(), fe, self.errors@.last()@);
                        lemma_sync_loop_ge(self.toks(), self.pos() + 1);
                    }
                    self.synchronize();
                    None
                },
            }
        } else if t == TokenType::Var {
            let _ = self.bump();
            match self.var_declaration() {
                Ok(st) => Some(st),
                Err(x) => {
                    let ghost mid = self.errs();
                    self.errors.push(x);
                    proof {
                        assert(self.errs() =~= mid.push(self.errors@.last()@));
                        assert(old(self).errs() + seq![self.errors@.last()@] =~= self.errs());
                        lemma_sync_loop_ge(self.toks(), self.pos() + 1);
                    }
                    self.synchronize();
                    None
                },
            }
        } else {
            match self.statement() {
                Ok(st) => Some(st),
                Err(x) => {
                    let ghost mid = self.errs();
                    self.errors.push(x);
                    proof {
                        assert(self.errs() =~= mid.push(self.errors@.last()@));
                        let (tr, te, tj) = sp_statement(old(self).toks(), old(self).pos());
                        lemma_errs_push_right(old(self).errs(), te, self.errors@.last()@);
                        lemma_sync_loop_ge(self.toks(), self.pos() + 1);
                    }
                    self.synchronize();
                    None
                },
            }
        }
    }

    /// The whole program: declarations until the end-of-input marker, as
    /// `sp_program` prescribes. Parsing never gives up: failed statements
    /// leave a recorded diagnostic and are skipped.
    #[verifier::rlimit(100)]
    #[verifier::spinoff_prover]
    pub fn parse(&mut self) -> (r: Vec<Stmt>)
        requires
            old(self).wfp(),
        ensures
            final(self).tokens == old(self).tokens,
            final(self).wfp(),
            ({
                let (ss, serrs, j) = sp_program(old(self).toks(), old(self).pos());
                &&& final(self).pos() == j
                &&& crate::stmt::stmts_view(r@) == ss
                &&& final(self).errs() == old(self).errs() + serrs
            }),
        decreases old(self).toks().len() - old(self).pos(), 28int,
    {
        proof {
            reveal(sp_program);
            reveal(sp_declaration);
        }
        if self.peek_type() == TokenType::Eof {
            proof {
                assert(crate::stmt::stmts_view(Seq::<Stmt>::empty()) =~= Seq::<StmtM>::empty());
                assert(old(self).errs() + Seq::<SigM>::empty() =~= old(self).errs());
            }
            return Vec::new();
        }
        let ghost entry = *old(self);
        let o = self.declaration();
        proof {
            let (o1, e1, j1) = sp_declaration(entry.toks(), entry.pos());
            let (ss2, e2, j2) = sp_program(entry.toks(), j1);
            lemma_errs_assoc(entry.errs(), e1, e2);
        }
        let rest = self.parse();
        match o {
            Some(st) => {
                let ghost pre = rest@;
                let mut ss = rest;
                ss.insert(0, st);
                proof {
                    assert(ss@.drop_first() =~= pre);
                    assert(crate::stmt::stmts_view(ss@) =~= seq![ss@[0]@] + crate::stmt::stmts_view(
                        pre,
                    ));
                }
                ss
            },
            None => {
                proof {
                    assert(Seq::<StmtM>::empty() + crate::stmt::stmts_view(rest@)
                        =~= crate::stmt::stmts_view(rest@));
                }
                rest
            },
        }
    }
}

/// Concatenating diagnostics is associative.
proof fn lemma_errs_assoc(a: Seq<SigM>, b: Seq<SigM>, c: Seq<SigM>)
    ensures
        (a + b) + c == a + (b + c),
{
    assert((a + b) + c =~= a + (b + c));
}

/// Appending one diagnostic to a concatenation appends it to the right
/// part.
proof fn lemma_errs_push_right(a: Seq<SigM>, b: Seq<SigM>, x: SigM)
    ensures
        (a + b).push(x) == a + b.push(x),
{
    assert((a + b).push(x) =~= a + b.push(x));
}

} // verus!
