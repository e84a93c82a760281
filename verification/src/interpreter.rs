//! The tree-walking evaluator. Every method is proved equal to the
//! big-step semantics in `semantics`: the same value, the same scope
//! changes, the same printed lines, the same errors.

use crate::environment::Environment;
use crate::expr::{expr_size, exprs_size, Expr};
use crate::loxfunction::LoxFunction;
use crate::loxresult::LoxResult;
use crate::numbers::{
    add_bits_exec, div_bits_exec, eq_bits, le_bits, lt_bits, mul_bits_exec, neg_bits,
    sub_bits_exec, u64_to_dec_string,
};
use crate::semantics::{
    arity_msg, binary_op, budget_sig, call_fun, eval_args, eval_expr, exec_stmt, exec_stmts,
    lit_val, run_program, unary_op, ArgsOut, EvalOut, StateM, StepOut,
    lemma_call_fun_frames, lemma_eval_args_frames, lemma_eval_expr_frames,
    lemma_exec_stmt_frames, lemma_exec_stmts_frames, bind_params,
};
use crate::stmt::{stmt_size, stmts_size, Stmt};
use crate::token::{Literal, Token, TokenType};
use crate::value::{rc_dup, val_text, ValM, Value};
use std::rc::Rc;
use vstd::prelude::*;

verus! {

/// The default evaluation budget: the bound on loop iterations and call
/// depth along one path of the walk.
pub const DEFAULT_FUEL: u64 = 0xFFFF_FFFF;

pub open spec fn default_fuel() -> nat {
    DEFAULT_FUEL as nat
}

/// The printed lines as character sequences.
pub open spec fn out_view(ss: Seq<String>) -> Seq<Seq<char>> {
    ss.map_values(|s: String| s@)
}

/// The values of an argument vector.
pub open spec fn vals_view(vs: Seq<Value>) -> Seq<ValM> {
    vs.map_values(|v: Value| v@)
}

/// An executable result agrees with a semantic expression outcome.
pub open spec fn eval_matches(r: Result<Value, LoxResult>, o: EvalOut) -> bool {
    match (r, o) {
        (Ok(v), EvalOut::Val(m)) => v@ == m,
        (Err(e), EvalOut::Sig(sg)) => e@ == sg,
        _ => false,
    }
}

/// An executable result agrees with a semantic statement outcome.
pub open spec fn step_matches(r: Result<(), LoxResult>, o: StepOut) -> bool {
    match (r, o) {
        (Ok(u), StepOut::Done) => true,
        (Err(e), StepOut::Sig(sg)) => e@ == sg,
        _ => false,
    }
}

/// Relies on `Rc::deref`: a shared handle borrows its single allocation.
#[verifier::external_body]
fn rc_as_ref<T>(rc: &Rc<T>) -> (r: &T)
    ensures
        *r == **rc,
{
    &**rc
}

/// The runtime value of a literal.
fn lit_to_value(l: &Literal) -> (v: Value)
    ensures
        v@ == lit_val(l@),
{
    match l {
        Literal::String(s) => Value::String(s.clone()),
        Literal::Number(n) => Value::Number(*n),
        Literal::Bool(b) => Value::Boolean(*b),
        Literal::Nil => Value::Nil,
    }
}

/// Applies a binary operator to two evaluated operands, as `binary_op`
/// prescribes.
fn binary_op_exec(op: &Token, l: Value, r: Value) -> (res: Result<Value, LoxResult>)
    ensures
        eval_matches(res, binary_op(op@, l@, r@)),
{
    match op.token_type {
        TokenType::Plus => match (l, r) {
            (Value::Number(a), Value::Number(b)) => Ok(Value::Number(add_bits_exec(a, b))),
            (Value::String(a), Value::String(b)) => {
                let mut s = a;
                s.append(b.as_str());
                Ok(Value::String(s))
            },
            _ => Err(
                LoxResult::runtime_error(
                    op.clone(),
                    "Operands must be two numbers or two strings.".to_owned(),
                ),
            ),
        },
        TokenType::Minus => match (l, r) {
            (Value::Number(a), Value::Number(b)) => Ok(Value::Number(sub_bits_exec(a, b))),
            _ => Err(
                LoxResult::runtime_error(op.clone(), "Operand must be a number".to_owned()),
            ),
        },
        TokenType::Star => match (l, r) {
            (Value::Number(a), Value::Number(b)) => Ok(Value::Number(mul_bits_exec(a, b))),
            _ => Err(
                LoxResult::runtime_error(op.clone(), "Operand must be a number".to_owned()),
            ),
        },
        TokenType::Slash => match (l, r) {
            (Value::Number(a), Value::Number(b)) => Ok(Value::Number(div_bits_exec(a, b))),
            _ => Err(
                LoxResult::runtime_error(op.clone(), "Operand must be a number".to_owned()),
            ),
        },
        TokenType::EqualEqual => Ok(Value::Boolean(l.equals(&r))),
        TokenType::BangEqual => Ok(Value::Boolean(!l.equals(&r))),
        TokenType::Greater => match (l, r) {
            (Value::Number(a), Value::Number(b)) => Ok(Value::Boolean(lt_bits(b, a))),
            _ => Err(
                LoxResult::runtime_error(op.clone(), "Operand must be a number".to_owned()),
            ),
        },
        TokenType::GreaterEqual => match (l, r) {
            (Value::Number(a), Value::Number(b)) => Ok(Value::Boolean(le_bits(b, a))),
            _ => Err(
                LoxResult::runtime_error(op.clone(), "Operand must be a number".to_owned()),
            ),
        },
        TokenType::Less => match (l, r) {
            (Value::Number(a), Value::Number(b)) => Ok(Value::Boolean(lt_bits(a, b))),
            _ => Err(
                LoxResult::runtime_error(op.clone(), "Operand must be a number".to_owned()),
            ),
        },
        TokenType::LessEqual => match (l, r) {
            (Value::Number(a), Value::Number(b)) => Ok(Value::Boolean(le_bits(a, b))),
            _ => Err(
                LoxResult::runtime_error(op.clone(), "Operand must be a number".to_owned()),
            ),
        },
        _ => Err(LoxResult::runtime_error(op.clone(), "Unexpected operator.".to_owned())),
    }
}

/// Applies a unary operator, as `unary_op` prescribes.
fn unary_op_exec(op: &Token, v: Value) -> (res: Result<Value, LoxResult>)
    ensures
        eval_matches(res, unary_op(op@, v@)),
{
    match op.token_type {
        TokenType::Minus => match v {
            Value::Number(b) => Ok(Value::Number(neg_bits(b))),
            _ => Err(
                LoxResult::runtime_error(op.clone(), "Operand must be a number".to_owned()),
            ),
        },
        TokenType::Bang => Ok(Value::Boolean(!v.is_true())),
        _ => Err(LoxResult::runtime_error(op.clone(), "Unexpected operator.".to_owned())),
    }
}

/// The error raised when the evaluation budget runs out.
fn budget_error() -> (e: LoxResult)
    ensures
        e@ == budget_sig(),
{
    LoxResult::runtime_error(
        Token::new(TokenType::Eof, String::new(), None, 0),
        "Execution budget exhausted.".to_owned(),
    )
}

/// The arity-mismatch error at a call site.
fn arity_error(paren: &Token, expected: usize, got: usize) -> (e: LoxResult)
    ensures
        e@ == crate::semantics::rt_err(paren@, arity_msg(expected as nat, got as nat)),
{
    let mut m = "Expect ".to_owned();
    m.append(u64_to_dec_string(expected as u64).as_str());
    m.append(" arguments but got ");
    m.append(u64_to_dec_string(got as u64).as_str());
    m.append(".");
    proof {
        assert(m@ =~= arity_msg(expected as nat, got as nat));
    }
    LoxResult::runtime_error(paren.clone(), m)
}

/// The interpreter: the current scope chain and the lines printed so far.
pub struct Interpreter {
    pub globals: Environment,
    pub output: Vec<String>,
}

impl Interpreter {
    /// The state of the interpreter, as the semantics sees it.
    pub open spec fn state(&self) -> StateM {
        StateM { env: self.globals@, out: out_view(self.output@) }
    }

    /// There is always at least the global scope.
    pub open spec fn wf(&self) -> bool {
        self.globals@.len() >= 1
    }

    /// A fresh interpreter: one empty global scope, nothing printed.
    pub fn new() -> (it: Interpreter)
        ensures
            it.state() == (StateM {
                env: seq![Map::<Seq<char>, ValM>::empty()],
                out: Seq::<Seq<char>>::empty(),
            }),
            it.wf(),
    {
        let it = Interpreter { globals: Environment::new(), output: Vec::new() };
        proof {
            assert(it.state().env =~= seq![Map::<Seq<char>, ValM>::empty()]);
            assert(it.state().out =~= Seq::<Seq<char>>::empty());
        }
        it
    }

    /// The lines printed so far, in order.
    pub fn output(&self) -> (r: &Vec<String>)
        ensures
            out_view(r@) == self.state().out,
    {
        &self.output
    }

    /// Hands the printed lines out and clears the buffer; the scope chain
    /// is untouched.
    pub fn take_output(&mut self) -> (r: Vec<String>)
        ensures
            out_view(r@) == old(self).state().out,
            final(self).state() == (StateM {
                env: old(self).state().env,
                out: Seq::<Seq<char>>::empty(),
            }),
            final(self).wf() == old(self).wf(),
    {
        let mut v: Vec<String> = Vec::new();
        std::mem::swap(&mut self.output, &mut v);
        proof {
            assert(out_view(Seq::<String>::empty()) =~= Seq::<Seq<char>>::empty());
        }
        v
    }

    /// Evaluates one expression against the current state, with the
    /// default budget, exactly as `eval_expr` prescribes.
    pub fn evaluate(&mut self, expr: Expr) -> (r: Result<Value, LoxResult>)
        requires
            old(self).wf(),
        ensures
            ({
                let (o, st1) = eval_expr(expr, old(self).state(), default_fuel());
                &&& final(self).state() == st1
                &&& eval_matches(r, o)
                &&& final(self).wf()
            }),
    {
        self.eval(&expr, DEFAULT_FUEL)
    }

    /// Runs a whole program: each top-level statement in order, each with
    /// the full budget; the first error aborts the rest and is handed
    /// back, exactly as `run_program` prescribes. A `return` that escapes
    /// every call reaches the host unconsumed, as the `ReturnValue`
    /// variant itself: deciding how to report that stray signal is the
    /// host's business.
    pub fn interpret(&mut self, statements: Vec<Stmt>) -> (r: Result<(), LoxResult>)
        requires
            old(self).wf(),
        ensures
            ({
                let (o, st1) = run_program(statements@, old(self).state(), default_fuel());
                &&& final(self).state() == st1
                &&& step_matches(r, o)
                &&& final(self).wf()
            }),
    {
        proof {
            assert(statements@.skip(0) =~= statements@);
        }
        self.interpret_from(&statements, 0)
    }

    fn interpret_from(&mut self, ss: &Vec<Stmt>, i: usize) -> (r: Result<(), LoxResult>)
        requires
            old(self).wf(),
            i <= ss@.len(),
        ensures
            ({
                let (o, st1) = run_program(ss@.skip(i as int), old(self).state(), default_fuel());
                &&& final(self).state() == st1
                &&& step_matches(r, o)
                &&& final(self).wf()
            }),
        decreases ss@.len() - i,
    {
        if i == ss.len() {
            proof {
                assert(ss@.skip(i as int) =~= Seq::<Stmt>::empty());
            }
            return Ok(());
        }
        proof {
            assert(ss@.skip(i as int)[0] == ss@[i as int]);
            assert(ss@.skip(i as int).drop_first() =~= ss@.skip(i as int + 1));
        }
        match self.exec_stmt_ref(&ss[i], DEFAULT_FUEL) {
            Err(e) => Err(e),
            Ok(()) => self.interpret_from(ss, i + 1),
        }
    }

    /// Executes the statements of a block against a fresh innermost scope,
    /// which is discarded afterwards whatever happens, with the default
    /// budget.
    pub fn execute_block(&mut self, statements: &Vec<Stmt>) -> (r: Result<(), LoxResult>)
        requires
            old(self).wf(),
        ensures
            ({
                let entry = StateM {
                    env: old(self).state().env.push(Map::empty()),
                    out: old(self).state().out,
                };
                let (o, st2) = exec_stmts(statements@, entry, default_fuel());
                &&& final(self).state() == (StateM { env: st2.env.drop_last(), out: st2.out })
                &&& step_matches(r, o)
                &&& final(self).wf()
            }),
    {
        self.exec_block(statements, DEFAULT_FUEL)
    }

    fn exec_block(&mut self, statements: &Vec<Stmt>, fuel: u64) -> (r: Result<(), LoxResult>)
        requires
            old(self).wf(),
        ensures
            ({
                let entry = StateM {
                    env: old(self).state().env.push(Map::empty()),
                    out: old(self).state().out,
                };
                let (o, st2) = exec_stmts(statements@, entry, fuel as nat);
                &&& final(self).state() == (StateM { env: st2.env.drop_last(), out: st2.out })
                &&& step_matches(r, o)
                &&& final(self).wf()
            }),
        decreases fuel, stmts_size(statements@) + 1, 0int,
    {
        self.globals.push_frame();
        proof {
            lemma_exec_stmts_frames(statements@, self.state(), fuel as nat);
            assert(statements@.skip(0) =~= statements@);
        }
        let r = self.exec_stmts_ref(statements, 0, fuel);
        self.globals.pop_frame();
        r
    }

    fn exec_stmts_ref(&mut self, ss: &Vec<Stmt>, i: usize, fuel: u64) -> (r: Result<
        (),
        LoxResult,
    >)
        requires
            old(self).wf(),
            i <= ss@.len(),
        ensures
            ({
                let (o, st1) = exec_stmts(ss@.skip(i as int), old(self).state(), fuel as nat);
                &&& final(self).state() == st1
                &&& step_matches(r, o)
                &&& final(self).wf()
            }),
        decreases fuel, stmts_size(ss@.skip(i as int)), 0int,
    {
        proof {
            lemma_exec_stmts_frames(ss@.skip(i as int), old(self).state(), fuel as nat);
        }
        if i == ss.len() {
            proof {
                assert(ss@.skip(i as int) =~= Seq::<Stmt>::empty());
            }
            return Ok(());
        }
        proof {
            assert(ss@.skip(i as int)[0] == ss@[i as int]);
            assert(ss@.skip(i as int).drop_first() =~= ss@.skip(i as int + 1));
        }
        match self.exec_stmt_ref(&ss[i], fuel) {
            Err(e) => Err(e),
            Ok(()) => self.exec_stmts_ref(ss, i + 1, fuel),
        }
    }

    fn exec_stmt_ref(&mut self, s: &Stmt, fuel: u64) -> (r: Result<(), LoxResult>)
        requires
            old(self).wf(),
        ensures
            ({
                let (o, st1) = exec_stmt(*s, old(self).state(), fuel as nat);
                &&& final(self).state() == st1
                &&& step_matches(r, o)
                &&& final(self).wf()
            }),
        decreases fuel, stmt_size(*s), 1int,
    {
        proof {
            lemma_exec_stmt_frames(*s, old(self).state(), fuel as nat);
        }
        match s {
            Stmt::Expression { expression } => {
                match self.eval(&**expression, fuel) {
                    Ok(_) => Ok(()),
                    Err(e) => Err(e),
                }
            },
            Stmt::Print { expression } => {
                match self.eval(&**expression, fuel) {
                    Ok(v) => {
                        let text = v.to_text();
                        let ghost mid: Seq<String> = self.output@;
                        self.output.push(text);
                        proof {
                            assert(out_view(self.output@) =~= out_view(mid).push(val_text(v@)));
                        }
                        Ok(())
                    },
                    Err(e) => Err(e),
                }
            },
            Stmt::Var { name, initializer } => {
                let v = match initializer {
                    Some(init) => match self.eval(&**init, fuel) {
                        Ok(v) => v,
                        Err(e) => {
                            return Err(e);
                        },
                    },
                    None => Value::Nil,
                };
                self.globals.define(name.lexeme.clone(), v);
                Ok(())
            },
            Stmt::Block { statements } => self.exec_block(statements, fuel),
            Stmt::If { condition, then_branch, else_branch } => {
                match self.eval(&**condition, fuel) {
                    Err(e) => Err(e),
                    Ok(c) => if c.is_true() {
                        self.exec_stmt_ref(&**then_branch, fuel)
                    } else {
                        match else_branch {
                            Some(els) => self.exec_stmt_ref(&**els, fuel),
                            None => Ok(()),
                        }
                    },
                }
            },
            Stmt::While { condition, body } => {
                let mut remaining = fuel;
                loop
                    invariant
                        self.wf(),
                        remaining <= fuel,
                        s is While,
                        *s == (Stmt::While { condition: *condition, body: *body }),
                        exec_stmt(*s, old(self).state(), fuel as nat) == exec_stmt(
                            *s,
                            self.state(),
                            remaining as nat,
                        ),
                    decreases remaining,
                {
                    if remaining == 0 {
                        return Err(budget_error());
                    }
                    proof {
                        lemma_eval_expr_frames(*&**condition, self.state(), remaining as nat);
                    }
                    let snap: Ghost<StateM> = Ghost(self.state());
                    match self.eval(&**condition, remaining) {
                        Err(e) => {
                            return Err(e);
                        },
                        Ok(c) => {
                            if !c.is_true() {
                                return Ok(());
                            }
                            proof {
                                lemma_exec_stmt_frames(*&**body, self.state(), remaining as nat);
                            }
                            match self.exec_stmt_ref(&**body, remaining) {
                                Err(e) => {
                                    return Err(e);
                                },
                                Ok(()) => {},
                            }
                        },
                    }
                    remaining = remaining - 1;
                }
            },
            Stmt::Function { name, params, body } => {
                let f = LoxFunction::new(name.clone(), rc_dup(params), rc_dup(body));
                self.globals.define(name.lexeme.clone(), Value::LoxFunction(f));
                Ok(())
            },
            Stmt::Return { keyword, value } => {
                let v = match value {
                    Some(e) => match self.eval(e, fuel) {
                        Ok(v) => v,
                        Err(err) => {
                            return Err(err);
                        },
                    },
                    None => Value::Nil,
                };
                Err(LoxResult::ReturnValue { value: v })
            },
        }
    }

    fn eval(&mut self, e: &Expr, fuel: u64) -> (r: Result<Value, LoxResult>)
        requires
            old(self).wf(),
        ensures
            ({
                let (o, st1) = eval_expr(*e, old(self).state(), fuel as nat);
                &&& final(self).state() == st1
                &&& eval_matches(r, o)
                &&& final(self).wf()
            }),
        decreases fuel, expr_size(*e), 0int,
    {
        proof {
            lemma_eval_expr_frames(*e, old(self).state(), fuel as nat);
        }
        match e {
            Expr::Literal { value } => Ok(lit_to_value(value)),
            Expr::Grouping { expression } => self.eval(&**expression, fuel),
            Expr::Variable { name } => self.globals.get(name.clone()),
            Expr::Assign { name, value } => {
                match self.eval(&**value, fuel) {
                    Err(e) => Err(e),
                    Ok(v) => match self.globals.assign(name.clone(), v.clone()) {
                        Ok(()) => Ok(v),
                        Err(e) => Err(e),
                    },
                }
            },
            Expr::Unary { operator, right } => {
                match self.eval(&**right, fuel) {
                    Err(e) => Err(e),
                    Ok(v) => unary_op_exec(operator, v),
                }
            },
            Expr::Binary { left, operator, right } => {
                match self.eval(&**left, fuel) {
                    Err(e) => Err(e),
                    Ok(lv) => match self.eval(&**right, fuel) {
                        Err(e) => Err(e),
                        Ok(rv) => binary_op_exec(operator, lv, rv),
                    },
                }
            },
            Expr::Logical { left, operator, right } => {
                match self.eval(&**left, fuel) {
                    Err(e) => Err(e),
                    Ok(lv) => match operator.token_type {
                        TokenType::Or => if lv.is_true() {
                            Ok(lv)
                        } else {
                            self.eval(&**right, fuel)
                        },
                        TokenType::And => if !lv.is_true() {
                            Ok(lv)
                        } else {
                            self.eval(&**right, fuel)
                        },
                        _ => Err(
                            LoxResult::runtime_error(
                                operator.clone(),
                                "Unexpected operator.".to_owned(),
                            ),
                        ),
                    },
                }
            },
            Expr::Call { callee, paren, arguments } => {
                match self.eval(&**callee, fuel) {
                    Err(e) => Err(e),
                    Ok(cv) => {
                        proof {
                            lemma_eval_args_frames(arguments@, self.state(), fuel as nat);
                            assert(arguments@.skip(0) =~= arguments@);
                        }
                        match self.eval_args_exec(arguments, 0, fuel) {
                            Err(e) => Err(e),
                            Ok(argv) => match cv {
                                Value::LoxFunction(f) => {
                                    if argv.len() != f.params.len() {
                                        Err(arity_error(paren, f.params.len(), argv.len()))
                                    } else if fuel == 0 {
                                        Err(budget_error())
                                    } else {
                                        self.call_function(&f, argv, fuel - 1)
                                    }
                                },
                                _ => Err(
                                    LoxResult::runtime_error(
                                        paren.clone(),
                                        "Can only call functions and classes.".to_owned(),
                                    ),
                                ),
                            },
                        }
                    },
                }
            },
        }
    }

    fn eval_args_exec(&mut self, args: &Vec<Expr>, i: usize, fuel: u64) -> (r: Result<
        Vec<Value>,
        LoxResult,
    >)
        requires
            old(self).wf(),
            i <= args@.len(),
        ensures
            ({
                let (o, st1) = eval_args(args@.skip(i as int), old(self).state(), fuel as nat);
                &&& final(self).state() == st1
                &&& match (r, o) {
                    (Ok(vs), ArgsOut::Vals(ms)) => vals_view(vs@) == ms,
                    (Err(e), ArgsOut::Sig(sg)) => e@ == sg,
                    _ => false,
                }
                &&& final(self).wf()
            }),
        decreases fuel, exprs_size(args@.skip(i as int)), 0int,
    {
        proof {
            lemma_eval_args_frames(args@.skip(i as int), old(self).state(), fuel as nat);
        }
        if i == args.len() {
            proof {
                assert(args@.skip(i as int) =~= Seq::<Expr>::empty());
                assert(vals_view(Seq::<Value>::empty()) =~= Seq::<ValM>::empty());
            }
            return Ok(Vec::new());
        }
        proof {
            assert(args@.skip(i as int)[0] == args@[i as int]);
            assert(args@.skip(i as int).drop_first() =~= args@.skip(i as int + 1));
        }
        match self.eval(&args[i], fuel) {
            Err(e) => Err(e),
            Ok(v) => match self.eval_args_exec(args, i + 1, fuel) {
                Err(e) => Err(e),
                Ok(mut rest) => {
                    rest.insert(0, v);
                    proof {
                        let (o, _) = eval_args(
                            args@.skip(i as int + 1),
                            eval_expr(args@[i as int], old(self).state(), fuel as nat).1,
                            fuel as nat,
                        );
                        if let ArgsOut::Vals(ms) = o {
                            assert(vals_view(rest@) =~= seq![v@] + ms);
                        }
                    }
                    Ok(rest)
                },
            },
        }
    }

    fn call_function(&mut self, fun: &LoxFunction, argv: Vec<Value>, fuel: u64) -> (r: Result<
        Value,
        LoxResult,
    >)
        requires
            old(self).wf(),
            argv@.len() == fun@.params.len(),
        ensures
            ({
                let (o, st1) = call_fun(fun@, vals_view(argv@), old(self).state(), fuel as nat);
                &&& final(self).state() == st1
                &&& eval_matches(r, o)
                &&& final(self).wf()
            }),
        decreases fuel, stmts_size(fun@.body), 1int,
    {
        proof {
            lemma_call_fun_frames(fun@, vals_view(argv@), old(self).state(), fuel as nat);
        }
        self.globals.push_frame();
        let params: &Vec<Token> = rc_as_ref(&fun.params);
        let n = params.len();
        let mut j: usize = 0;
        proof {
            assert(bind_params(fun@.params.take(0), vals_view(argv@).take(0)) =~= Map::<
                Seq<char>,
                ValM,
            >::empty());
            assert(self.globals@ =~= old(self).state().env.push(
                bind_params(fun@.params.take(0), vals_view(argv@).take(0)),
            ));
        }
        while j < n
            invariant
                j <= n,
                n == fun@.params.len(),
                argv@.len() == n,
                params@ == fun@.params,
                self.output@ == old(self).output@,
                self.globals@ =~= old(self).state().env.push(
                    bind_params(fun@.params.take(j as int), vals_view(argv@).take(j as int)),
                ),
            decreases n - j,
        {
            let nm = params[j].lexeme.clone();
            let v = argv[j].clone();
            self.globals.define(nm, v);
            proof {
                let pj = fun@.params.take(j as int + 1);
                let vj = vals_view(argv@).take(j as int + 1);
                assert(pj.drop_last() =~= fun@.params.take(j as int));
                assert(vj.drop_last() =~= vals_view(argv@).take(j as int));
                assert(pj.last() == fun@.params[j as int]);
                assert(vj.last() == vals_view(argv@)[j as int]);
                assert(self.globals@ =~= old(self).state().env.push(bind_params(pj, vj)));
            }
            j = j + 1;
        }
        proof {
            assert(fun@.params.take(n as int) =~= fun@.params);
            assert(vals_view(argv@).take(n as int) =~= vals_view(argv@));
            let entry = StateM {
                env: old(self).state().env.push(bind_params(fun@.params, vals_view(argv@))),
                out: old(self).state().out,
            };
            lemma_exec_stmts_frames(fun@.body, entry, fuel as nat);
            assert(self.state() == entry);
        }
        let body: &Vec<Stmt> = rc_as_ref(&fun.body);
        proof {
            assert(body@.skip(0) =~= fun@.body);
        }
        let r = self.exec_stmts_ref(body, 0, fuel);
        self.globals.pop_frame();
        match r {
            Ok(()) => Ok(Value::Nil),
            Err(LoxResult::ReturnValue { value }) => Ok(value),
            Err(e) => Err(e),
        }
    }
}


} // verus!
