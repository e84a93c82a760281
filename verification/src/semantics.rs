//! The big-step semantics of the language: one spec function family that
//! says, for every statement and expression, what value results, how the
//! scope chain changes, and what is printed.
//!
//! Evaluation is bounded by a fuel parameter that limits loop iterations
//! and call depth; running out of fuel is the `Execution budget exhausted.`
//! runtime error. The executable interpreter is proved equal to these
//! functions.

use crate::environment::{env_assign, env_define, env_lookup, undefined_variable_msg};
use crate::expr::{expr_size, exprs_size, Expr};
use crate::loxfunction::FunM;
use crate::loxresult::SigM;
use crate::numbers::{
    add_bits, dec_digits, div_bits, mul_bits, num_eq, num_le, num_lt, num_neg, sub_bits,
};
use crate::stmt::{stmt_size, stmts_size, Stmt};
use crate::token::{LitM, TokM, Token, TokenType};
use crate::value::{eq_vals, truthy, val_text, ValM};
use vstd::prelude::*;

verus! {

/// The state a computation threads: the scope chain and the lines printed
/// so far.
pub struct StateM {
    pub env: Seq<Map<Seq<char>, ValM>>,
    pub out: Seq<Seq<char>>,
}

/// The outcome of evaluating an expression: a value, or a signal that
/// unwinds.
pub enum EvalOut {
    Val(ValM),
    Sig(SigM),
}

/// The outcome of evaluating an argument list.
pub enum ArgsOut {
    Vals(Seq<ValM>),
    Sig(SigM),
}

/// The outcome of executing a statement: normal completion, or a signal
/// that unwinds.
pub enum StepOut {
    Done,
    Sig(SigM),
}

pub open spec fn msg_two_numbers_or_strings() -> Seq<char> {
    "Operands must be two numbers or two strings."@
}

pub open spec fn msg_number_operand() -> Seq<char> {
    "Operand must be a number"@
}

pub open spec fn msg_unexpected_operator() -> Seq<char> {
    "Unexpected operator."@
}

pub open spec fn msg_not_callable() -> Seq<char> {
    "Can only call functions and classes."@
}

/// The message of an arity mismatch: `Expect N arguments but got M.`
pub open spec fn arity_msg(expected: nat, got: nat) -> Seq<char> {
    "Expect "@ + dec_digits(expected) + " arguments but got "@ + dec_digits(got) + "."@
}

/// The token blamed when the evaluation budget runs out: a synthetic
/// end-of-input token on line zero.
pub open spec fn budget_token() -> TokM {
    TokM { token_type: TokenType::Eof, lexeme: Seq::<char>::empty(), literal: None, line: 0 }
}

/// The signal raised when the evaluation budget runs out.
pub open spec fn budget_sig() -> SigM {
    SigM::RtErr { token: budget_token(), msg: "Execution budget exhausted."@ }
}

pub open spec fn rt_err(token: TokM, msg: Seq<char>) -> SigM {
    SigM::RtErr { token, msg }
}

/// The value of a literal expression.
pub open spec fn lit_val(l: LitM) -> ValM {
    match l {
        LitM::Str(s) => ValM::Str(s),
        LitM::Num(n) => ValM::Num(n),
        LitM::Bool(b) => ValM::Bool(b),
        LitM::Nil => ValM::Nil,
    }
}

/// What a binary operator yields on two already-evaluated operands.
/// `+` accepts two numbers (IEEE-754 sum) or two strings (concatenation);
/// `-`, `*`, `/` and the four comparisons require two numbers; `==` and
/// `!=` use language equality and never fail. A token that is no binary
/// operator (the parser produces none such) is the `Unexpected operator.`
/// error.
pub open spec fn binary_op(op: TokM, l: ValM, r: ValM) -> EvalOut {
    match op.token_type {
        TokenType::Plus => match (l, r) {
            (ValM::Num(a), ValM::Num(b)) => EvalOut::Val(ValM::Num(add_bits(a, b))),
            (ValM::Str(a), ValM::Str(b)) => EvalOut::Val(ValM::Str(a + b)),
            _ => EvalOut::Sig(rt_err(op, msg_two_numbers_or_strings())),
        },
        TokenType::Minus => match (l, r) {
            (ValM::Num(a), ValM::Num(b)) => EvalOut::Val(ValM::Num(sub_bits(a, b))),
            _ => EvalOut::Sig(rt_err(op, msg_number_operand())),
        },
        TokenType::Star => match (l, r) {
            (ValM::Num(a), ValM::Num(b)) => EvalOut::Val(ValM::Num(mul_bits(a, b))),
            _ => EvalOut::Sig(rt_err(op, msg_number_operand())),
        },
        TokenType::Slash => match (l, r) {
            (ValM::Num(a), ValM::Num(b)) => EvalOut::Val(ValM::Num(div_bits(a, b))),
            _ => EvalOut::Sig(rt_err(op, msg_number_operand())),
        },
        TokenType::EqualEqual => EvalOut::Val(ValM::Bool(eq_vals(l, r))),
        TokenType::BangEqual => EvalOut::Val(ValM::Bool(!eq_vals(l, r))),
        TokenType::Greater => match (l, r) {
            (ValM::Num(a), ValM::Num(b)) => EvalOut::Val(ValM::Bool(num_lt(b, a))),
            _ => EvalOut::Sig(rt_err(op, msg_number_operand())),
        },
        TokenType::GreaterEqual => match (l, r) {
            (ValM::Num(a), ValM::Num(b)) => EvalOut::Val(ValM::Bool(num_le(b, a))),
            _ => EvalOut::Sig(rt_err(op, msg_number_operand())),
        },
        TokenType::Less => match (l, r) {
            (ValM::Num(a), ValM::Num(b)) => EvalOut::Val(ValM::Bool(num_lt(a, b))),
            _ => EvalOut::Sig(rt_err(op, msg_number_operand())),
        },
        TokenType::LessEqual => match (l, r) {
            (ValM::Num(a), ValM::Num(b)) => EvalOut::Val(ValM::Bool(num_le(a, b))),
            _ => EvalOut::Sig(rt_err(op, msg_number_operand())),
        },
        _ => EvalOut::Sig(rt_err(op, msg_unexpected_operator())),
    }
}

/// What a unary operator yields: `-` negates a number, `!` negates
/// truthiness and never fails.
pub open spec fn unary_op(op: TokM, v: ValM) -> EvalOut {
    match op.token_type {
        TokenType::Minus => match v {
            ValM::Num(a) => EvalOut::Val(ValM::Num(num_neg(a))),
            _ => EvalOut::Sig(rt_err(op, msg_number_operand())),
        },
        TokenType::Bang => EvalOut::Val(ValM::Bool(!truthy(v))),
        _ => EvalOut::Sig(rt_err(op, msg_unexpected_operator())),
    }
}

/// The parameter frame of a call: each parameter name bound to the
/// argument in its position, later duplicates overriding earlier ones.
pub open spec fn bind_params(params: Seq<Token>, argv: Seq<ValM>) -> Map<Seq<char>, ValM>
    decreases params.len(),
{
    if params.len() == 0 {
        Map::empty()
    } else {
        bind_params(params.drop_last(), argv.drop_last()).insert(
            params.last().lexeme@,
            argv.last(),
        )
    }
}

/// Evaluates an expression: its value, or the first signal raised, with
/// the state as of that moment.
pub open spec fn eval_expr(e: Expr, st: StateM, fuel: nat) -> (EvalOut, StateM)
    decreases fuel, expr_size(e), 0int,
{
    match e {
        Expr::Literal { value } => (EvalOut::Val(lit_val(value@)), st),
        Expr::Grouping { expression } => eval_expr(*expression, st, fuel),
        Expr::Variable { name } => match env_lookup(st.env, name.lexeme@) {
            Some(v) => (EvalOut::Val(v), st),
            None => (
                EvalOut::Sig(rt_err(name@, undefined_variable_msg(name.lexeme@))),
                st,
            ),
        },
        Expr::Assign { name, value } => {
            let (r, st1) = eval_expr(*value, st, fuel);
            match r {
                EvalOut::Val(v) => match env_assign(st1.env, name.lexeme@, v) {
                    Some(env2) => (EvalOut::Val(v), StateM { env: env2, out: st1.out }),
                    None => (
                        EvalOut::Sig(rt_err(name@, undefined_variable_msg(name.lexeme@))),
                        st1,
                    ),
                },
                sig => (sig, st1),
            }
        },
        Expr::Unary { operator, right } => {
            let (r, st1) = eval_expr(*right, st, fuel);
            match r {
                EvalOut::Val(v) => (unary_op(operator@, v), st1),
                sig => (sig, st1),
            }
        },
        Expr::Binary { left, operator, right } => {
            let (lr, st1) = eval_expr(*left, st, fuel);
            match lr {
                EvalOut::Val(lv) => {
                    let (rr, st2) = eval_expr(*right, st1, fuel);
                    match rr {
                        EvalOut::Val(rv) => (binary_op(operator@, lv, rv), st2),
                        sig => (sig, st2),
                    }
                },
                sig => (sig, st1),
            }
        },
        Expr::Logical { left, operator, right } => {
            let (lr, st1) = eval_expr(*left, st, fuel);
            match lr {
                EvalOut::Val(lv) => match operator.token_type {
                    TokenType::Or => if truthy(lv) {
                        (EvalOut::Val(lv), st1)
                    } else {
                        eval_expr(*right, st1, fuel)
                    },
                    TokenType::And => if !truthy(lv) {
                        (EvalOut::Val(lv), st1)
                    } else {
                        eval_expr(*right, st1, fuel)
                    },
                    _ => (EvalOut::Sig(rt_err(operator@, msg_unexpected_operator())), st1),
                },
                sig => (sig, st1),
            }
        },
        Expr::Call { callee, paren, arguments } => {
            let (cr, st1) = eval_expr(*callee, st, fuel);
            match cr {
                EvalOut::Val(cv) => {
                    let (ar, st2) = eval_args(arguments@, st1, fuel);
                    match ar {
                        ArgsOut::Vals(argv) => match cv {
                            ValM::Fun(f) => if argv.len() != f.params.len() {
                                (
                                    EvalOut::Sig(
                                        rt_err(paren@, arity_msg(f.params.len(), argv.len())),
                                    ),
                                    st2,
                                )
                            } else if fuel == 0 {
                                (EvalOut::Sig(budget_sig()), st2)
                            } else {
                                call_fun(f, argv, st2, (fuel - 1) as nat)
                            },
                            _ => (EvalOut::Sig(rt_err(paren@, msg_not_callable())), st2),
                        },
                        ArgsOut::Sig(s) => (EvalOut::Sig(s), st2),
                    }
                },
                sig => (sig, st1),
            }
        },
    }
}

/// Evaluates an argument list left to right, stopping at the first signal.
pub open spec fn eval_args(args: Seq<Expr>, st: StateM, fuel: nat) -> (ArgsOut, StateM)
    decreases fuel, exprs_size(args), 0int,
{
    if args.len() == 0 {
        (ArgsOut::Vals(Seq::empty()), st)
    } else {
        let (r, st1) = eval_expr(args[0], st, fuel);
        match r {
            EvalOut::Val(v) => {
                let (rest, st2) = eval_args(args.drop_first(), st1, fuel);
                match rest {
                    ArgsOut::Vals(vs) => (ArgsOut::Vals(seq![v] + vs), st2),
                    sig => (sig, st2),
                }
            },
            EvalOut::Sig(s) => (ArgsOut::Sig(s), st1),
        }
    }
}

/// The call protocol: a new scope binds each parameter to its argument,
/// the body runs there, and the scope is discarded whatever happens. A
/// normal finish yields `nil`; a `return` signal yields the carried value;
/// any other signal passes through unchanged.
///
/// The parameter scope extends the caller's chain as it stands at call
/// time, not the environment in which the function was declared: the
/// language has no closures (capturing the defining scope is an intended
/// future extension), so a body resolves free names through whatever
/// chain is active where the call happens, as the original did.
pub open spec fn call_fun(f: FunM, argv: Seq<ValM>, st: StateM, fuel: nat) -> (EvalOut, StateM)
    decreases fuel, stmts_size(f.body), 1int,
{
    let entry = StateM { env: st.env.push(bind_params(f.params, argv)), out: st.out };
    let (r, st2) = exec_stmts(f.body, entry, fuel);
    let exit = StateM { env: st2.env.drop_last(), out: st2.out };
    match r {
        StepOut::Done => (EvalOut::Val(ValM::Nil), exit),
        StepOut::Sig(SigM::Ret { value }) => (EvalOut::Val(value), exit),
        StepOut::Sig(s) => (EvalOut::Sig(s), exit),
    }
}

/// Executes one statement.
///
/// `var` binds in the innermost scope; a block pushes a scope and pops it
/// unconditionally; `if` and `while` decide by truthiness (the condition
/// need not be a boolean); a function declaration binds a function value
/// under its name; `return` raises the `Ret` signal. A `while` iteration
/// costs one unit of fuel.
pub open spec fn exec_stmt(s: Stmt, st: StateM, fuel: nat) -> (StepOut, StateM)
    decreases fuel, stmt_size(s), 0int,
{
    match s {
        Stmt::Expression { expression } => {
            let (r, st1) = eval_expr(*expression, st, fuel);
            match r {
                EvalOut::Val(_) => (StepOut::Done, st1),
                EvalOut::Sig(sig) => (StepOut::Sig(sig), st1),
            }
        },
        Stmt::Print { expression } => {
            let (r, st1) = eval_expr(*expression, st, fuel);
            match r {
                EvalOut::Val(v) => (
                    StepOut::Done,
                    StateM { env: st1.env, out: st1.out.push(val_text(v)) },
                ),
                EvalOut::Sig(sig) => (StepOut::Sig(sig), st1),
            }
        },
        Stmt::Var { name, initializer } => match initializer {
            Some(init) => {
                let (r, st1) = eval_expr(*init, st, fuel);
                match r {
                    EvalOut::Val(v) => (
                        StepOut::Done,
                        StateM { env: env_define(st1.env, name.lexeme@, v), out: st1.out },
                    ),
                    EvalOut::Sig(sig) => (StepOut::Sig(sig), st1),
                }
            },
            None => (
                StepOut::Done,
                StateM { env: env_define(st.env, name.lexeme@, ValM::Nil), out: st.out },
            ),
        },
        Stmt::Block { statements } => {
            let entry = StateM { env: st.env.push(Map::empty()), out: st.out };
            let (r, st2) = exec_stmts(statements@, entry, fuel);
            (r, StateM { env: st2.env.drop_last(), out: st2.out })
        },
        Stmt::If { condition, then_branch, else_branch } => {
            let (r, st1) = eval_expr(*condition, st, fuel);
            match r {
                EvalOut::Val(v) => if truthy(v) {
                    exec_stmt(*then_branch, st1, fuel)
                } else {
                    match else_branch {
                        Some(els) => exec_stmt(*els, st1, fuel),
                        None => (StepOut::Done, st1),
                    }
                },
                EvalOut::Sig(sig) => (StepOut::Sig(sig), st1),
            }
        },
        Stmt::While { condition, body } => {
            if fuel == 0 {
                (StepOut::Sig(budget_sig()), st)
            } else {
                let (r, st1) = eval_expr(*condition, st, fuel);
                match r {
                    EvalOut::Val(v) => if !truthy(v) {
                        (StepOut::Done, st1)
                    } else {
                        let (br, st2) = exec_stmt(*body, st1, fuel);
                        match br {
                            StepOut::Done => exec_stmt(s, st2, (fuel - 1) as nat),
                            sig => (sig, st2),
                        }
                    },
                    EvalOut::Sig(sig) => (StepOut::Sig(sig), st1),
                }
            }
        },
        Stmt::Function { name, params, body } => (
            StepOut::Done,
            StateM {
                env: env_define(
                    st.env,
                    name.lexeme@,
                    ValM::Fun(FunM { name: name@, params: params@, body: body@ }),
                ),
                out: st.out,
            },
        ),
        Stmt::Return { keyword, value } => match value {
            Some(e) => {
                let (r, st1) = eval_expr(e, st, fuel);
                match r {
                    EvalOut::Val(v) => (StepOut::Sig(SigM::Ret { value: v }), st1),
                    EvalOut::Sig(sig) => (StepOut::Sig(sig), st1),
                }
            },
            None => (StepOut::Sig(SigM::Ret { value: ValM::Nil }), st),
        },
    }
}

/// Executes statements in order, stopping at the first signal.
pub open spec fn exec_stmts(ss: Seq<Stmt>, st: StateM, fuel: nat) -> (StepOut, StateM)
    decreases fuel, stmts_size(ss), 0int,
{
    if ss.len() == 0 {
        (StepOut::Done, st)
    } else {
        let (r, st1) = exec_stmt(ss[0], st, fuel);
        match r {
            StepOut::Done => exec_stmts(ss.drop_first(), st1, fuel),
            sig => (sig, st1),
        }
    }
}

/// Runs a whole program: each top-level statement in order, every one with
/// the full fuel budget; the first signal aborts the remaining statements
/// and is handed back.
pub open spec fn run_program(ss: Seq<Stmt>, st: StateM, fuel: nat) -> (StepOut, StateM)
    decreases ss.len(),
{
    if ss.len() == 0 {
        (StepOut::Done, st)
    } else {
        let (r, st1) = exec_stmt(ss[0], st, fuel);
        match r {
            StepOut::Done => run_program(ss.drop_first(), st1, fuel),
            sig => (sig, st1),
        }
    }
}


/// Both frame counts and, below a bound, frame domains are unchanged from
/// `pre` to `post`.
pub open spec fn frames_preserved_below(
    pre: Seq<Map<Seq<char>, ValM>>,
    post: Seq<Map<Seq<char>, ValM>>,
    k: int,
) -> bool {
    &&& post.len() == pre.len()
    &&& forall|i: int| 0 <= i < k ==> (#[trigger] post[i]).dom() == pre[i].dom()
}

/// Assignment changes no frame count and no frame domain: it only replaces
/// the value of a name a frame already binds.
pub proof fn lemma_env_assign_preserves(
    env: Seq<Map<Seq<char>, ValM>>,
    name: Seq<char>,
    v: ValM,
)
    ensures
        env_assign(env, name, v) matches Some(post) ==> frames_preserved_below(
            env,
            post,
            env.len() as int,
        ),
    decreases env.len(),
{
    if env.len() > 0 {
        if env.last().contains_key(name) {
            let post = env.drop_last().push(env.last().insert(name, v));
            assert(post.len() == env.len());
            assert forall|i: int| 0 <= i < env.len() implies (#[trigger] post[i]).dom()
                == env[i].dom() by {
                if i < env.len() - 1 {
                    assert(post[i] == env[i]);
                } else {
                    assert(post[i] == env.last().insert(name, v));
                    assert(env.last().insert(name, v).dom() =~= env.last().dom());
                }
            }
        } else {
            lemma_env_assign_preserves(env.drop_last(), name, v);
            if let Some(outer) = env_assign(env.drop_last(), name, v) {
                let post = outer.push(env.last());
                assert forall|i: int| 0 <= i < env.len() implies (#[trigger] post[i]).dom()
                    == env[i].dom() by {
                    if i < env.len() - 1 {
                        assert(post[i] == outer[i]);
                        assert(env.drop_last()[i] == env[i]);
                    } else {
                        assert(post[i] == env.last());
                    }
                }
            }
        }
    }
}

/// Evaluating an expression never changes the number of frames nor the
/// domain of any frame: values may change (through assignment), bindings
/// may not.
pub proof fn lemma_eval_expr_frames(e: Expr, st: StateM, fuel: nat)
    requires
        st.env.len() >= 1,
    ensures
        ({
            let (r, st1) = eval_expr(e, st, fuel);
            frames_preserved_below(st.env, st1.env, st.env.len() as int)
        }),
    decreases fuel, expr_size(e), 0int,
{
    match e {
        Expr::Literal { value } => {},
        Expr::Grouping { expression } => {
            lemma_eval_expr_frames(*expression, st, fuel);
        },
        Expr::Variable { name } => {},
        Expr::Assign { name, value } => {
            lemma_eval_expr_frames(*value, st, fuel);
            let (r, st1) = eval_expr(*value, st, fuel);
            if let EvalOut::Val(v) = r {
                lemma_env_assign_preserves(st1.env, name.lexeme@, v);
            }
        },
        Expr::Unary { operator, right } => {
            lemma_eval_expr_frames(*right, st, fuel);
        },
        Expr::Binary { left, operator, right } => {
            lemma_eval_expr_frames(*left, st, fuel);
            let (lr, st1) = eval_expr(*left, st, fuel);
            if let EvalOut::Val(_) = lr {
                lemma_eval_expr_frames(*right, st1, fuel);
            }
        },
        Expr::Logical { left, operator, right } => {
            lemma_eval_expr_frames(*left, st, fuel);
            let (lr, st1) = eval_expr(*left, st, fuel);
            if let EvalOut::Val(_) = lr {
                lemma_eval_expr_frames(*right, st1, fuel);
            }
        },
        Expr::Call { callee, paren, arguments } => {
            lemma_eval_expr_frames(*callee, st, fuel);
            let (cr, st1) = eval_expr(*callee, st, fuel);
            if let EvalOut::Val(cv) = cr {
                lemma_eval_args_frames(arguments@, st1, fuel);
                let (ar, st2) = eval_args(arguments@, st1, fuel);
                if let ArgsOut::Vals(argv) = ar {
                    if let ValM::Fun(f) = cv {
                        if argv.len() == f.params.len() && fuel > 0 {
                            lemma_call_fun_frames(f, argv, st2, (fuel - 1) as nat);
                        }
                    }
                }
            }
        },
    }
}

/// Evaluating an argument list preserves all frame domains.
pub proof fn lemma_eval_args_frames(args: Seq<Expr>, st: StateM, fuel: nat)
    requires
        st.env.len() >= 1,
    ensures
        ({
            let (r, st1) = eval_args(args, st, fuel);
            frames_preserved_below(st.env, st1.env, st.env.len() as int)
        }),
    decreases fuel, exprs_size(args), 0int,
{
    if args.len() > 0 {
        lemma_eval_expr_frames(args[0], st, fuel);
        let (r, st1) = eval_expr(args[0], st, fuel);
        if let EvalOut::Val(_) = r {
            lemma_eval_args_frames(args.drop_first(), st1, fuel);
        }
    }
}

/// A call preserves the caller's frames entirely: the parameter scope is
/// pushed above them and discarded again.
pub proof fn lemma_call_fun_frames(f: FunM, argv: Seq<ValM>, st: StateM, fuel: nat)
    requires
        st.env.len() >= 1,
    ensures
        ({
            let (r, st1) = call_fun(f, argv, st, fuel);
            frames_preserved_below(st.env, st1.env, st.env.len() as int)
        }),
    decreases fuel, stmts_size(f.body), 1int,
{
    let entry = StateM { env: st.env.push(bind_params(f.params, argv)), out: st.out };
    lemma_exec_stmts_frames(f.body, entry, fuel);
    let (r, st2) = exec_stmts(f.body, entry, fuel);
    assert forall|i: int| 0 <= i < st.env.len() implies (#[trigger] st2.env.drop_last()[i]).dom()
        == st.env[i].dom() by {
        assert(st2.env[i].dom() == entry.env[i].dom());
        assert(entry.env[i] == st.env[i]);
    }
}

/// Executing one statement preserves the frame count and the domains of
/// all frames but the innermost (where `var` and function declarations may
/// add bindings).
pub proof fn lemma_exec_stmt_frames(s: Stmt, st: StateM, fuel: nat)
    requires
        st.env.len() >= 1,
    ensures
        ({
            let (r, st1) = exec_stmt(s, st, fuel);
            frames_preserved_below(st.env, st1.env, st.env.len() - 1)
        }),
    decreases fuel, stmt_size(s), 0int,
{
    match s {
        Stmt::Expression { expression } => {
            lemma_eval_expr_frames(*expression, st, fuel);
        },
        Stmt::Print { expression } => {
            lemma_eval_expr_frames(*expression, st, fuel);
        },
        Stmt::Var { name, initializer } => {
            match initializer {
                Some(init) => {
                    lemma_eval_expr_frames(*init, st, fuel);
                    let (r, st1) = eval_expr(*init, st, fuel);
                    if let EvalOut::Val(v) = r {
                        assert(forall|i: int|
                            0 <= i < st1.env.len() - 1 ==> env_define(st1.env, name.lexeme@, v)[i]
                                == st1.env[i]);
                    }
                },
                None => {
                    assert(forall|i: int|
                        0 <= i < st.env.len() - 1 ==> env_define(st.env, name.lexeme@, ValM::Nil)[i]
                            == st.env[i]);
                },
            }
        },
        Stmt::Block { statements } => {
            let entry = StateM { env: st.env.push(Map::empty()), out: st.out };
            lemma_exec_stmts_frames(statements@, entry, fuel);
            let (r, st2) = exec_stmts(statements@, entry, fuel);
            assert forall|i: int|
                0 <= i < st.env.len() - 1 implies (#[trigger] st2.env.drop_last()[i]).dom()
                == st.env[i].dom() by {
                assert(st2.env[i].dom() == entry.env[i].dom());
                assert(entry.env[i] == st.env[i]);
            }
        },
        Stmt::If { condition, then_branch, else_branch } => {
            lemma_eval_expr_frames(*condition, st, fuel);
            let (r, st1) = eval_expr(*condition, st, fuel);
            if let EvalOut::Val(v) = r {
                if truthy(v) {
                    lemma_exec_stmt_frames(*then_branch, st1, fuel);
                } else {
                    match else_branch {
                        Some(els) => {
                            lemma_exec_stmt_frames(*els, st1, fuel);
                        },
                        None => {},
                    }
                }
            }
        },
        Stmt::While { condition, body } => {
            if fuel > 0 {
                lemma_eval_expr_frames(*condition, st, fuel);
                let (r, st1) = eval_expr(*condition, st, fuel);
                if let EvalOut::Val(v) = r {
                    if truthy(v) {
                        lemma_exec_stmt_frames(*body, st1, fuel);
                        let (br, st2) = exec_stmt(*body, st1, fuel);
                        if (br matches StepOut::Done) {
                            lemma_exec_stmt_frames(s, st2, (fuel - 1) as nat);
                        }
                    }
                }
            }
        },
        Stmt::Function { name, params, body } => {
            let fv = ValM::Fun(FunM { name: name@, params: params@, body: body@ });
            assert(forall|i: int|
                0 <= i < st.env.len() - 1 ==> env_define(st.env, name.lexeme@, fv)[i]
                    == st.env[i]);
        },
        Stmt::Return { keyword, value } => {
            match value {
                Some(e) => {
                    lemma_eval_expr_frames(e, st, fuel);
                },
                None => {},
            }
        },
    }
}

/// Executing a statement sequence preserves the frame count and the
/// domains of all frames but the innermost.
pub proof fn lemma_exec_stmts_frames(ss: Seq<Stmt>, st: StateM, fuel: nat)
    requires
        st.env.len() >= 1,
    ensures
        ({
            let (r, st1) = exec_stmts(ss, st, fuel);
            frames_preserved_below(st.env, st1.env, st.env.len() - 1)
        }),
    decreases fuel, stmts_size(ss), 0int,
{
    if ss.len() > 0 {
        lemma_exec_stmt_frames(ss[0], st, fuel);
        let (r, st1) = exec_stmt(ss[0], st, fuel);
        if (r matches StepOut::Done) {
            lemma_exec_stmts_frames(ss.drop_first(), st1, fuel);
        }
    }
}


/// An expression built only of number literals, grouping and the four
/// arithmetic operators.
pub open spec fn is_arith(e: Expr) -> bool
    decreases e,
{
    match e {
        Expr::Literal { value } => value@ is Num,
        Expr::Grouping { expression } => is_arith(*expression),
        Expr::Binary { left, operator, right } => (operator.token_type == TokenType::Plus
            || operator.token_type == TokenType::Minus || operator.token_type == TokenType::Star
            || operator.token_type == TokenType::Slash) && is_arith(*left) && is_arith(*right),
        _ => false,
    }
}

/// The value of such an expression: the literal patterns folded by the
/// IEEE-754 operations, `*` and `/` binding below their operands, every
/// level left-to-right as the tree fixes it.
pub open spec fn arith_val(e: Expr) -> u64
    decreases e,
{
    match e {
        Expr::Literal { value } => match value@ {
            LitM::Num(n) => n,
            _ => 0,
        },
        Expr::Grouping { expression } => arith_val(*expression),
        Expr::Binary { left, operator, right } => {
            let a = arith_val(*left);
            let b = arith_val(*right);
            if operator.token_type == TokenType::Plus {
                add_bits(a, b)
            } else if operator.token_type == TokenType::Minus {
                sub_bits(a, b)
            } else if operator.token_type == TokenType::Star {
                mul_bits(a, b)
            } else {
                div_bits(a, b)
            }
        },
        _ => 0,
    }
}

/// Arithmetic never fails and never touches the state: an expression of
/// number literals, grouping and `+ - * /` evaluates, for every state and
/// budget, to the number that the IEEE-754 operations give it under the
/// tree's precedence — division by zero included, which yields an
/// infinity or NaN, not an error.
pub proof fn lemma_arith_expr_total(e: Expr, st: StateM, fuel: nat)
    requires
        is_arith(e),
    ensures
        eval_expr(e, st, fuel) == (EvalOut::Val(ValM::Num(arith_val(e))), st),
    decreases expr_size(e),
{
    match e {
        Expr::Literal { value } => {},
        Expr::Grouping { expression } => {
            lemma_arith_expr_total(*expression, st, fuel);
        },
        Expr::Binary { left, operator, right } => {
            lemma_arith_expr_total(*left, st, fuel);
            lemma_arith_expr_total(*right, st, fuel);
        },
        _ => {},
    }
}


/// Arity is checked before the body runs: when the callee evaluates to a
/// function and the arguments evaluate, an argument count that differs
/// from the declared parameter count is the runtime error
/// `Expect N arguments but got M.` at the call's closing parenthesis.
pub proof fn lemma_call_arity_mismatch(
    callee: Expr,
    paren: Token,
    arguments: Vec<Expr>,
    st: StateM,
    fuel: nat,
    f: FunM,
    argv: Seq<ValM>,
)
    requires
        eval_expr(callee, st, fuel).0 == EvalOut::Val(ValM::Fun(f)),
        eval_args(arguments@, eval_expr(callee, st, fuel).1, fuel).0 == ArgsOut::Vals(argv),
        argv.len() != f.params.len(),
    ensures
        ({
            let e = Expr::Call { callee: Box::new(callee), paren, arguments };
            let st1 = eval_expr(callee, st, fuel).1;
            let st2 = eval_args(arguments@, st1, fuel).1;
            eval_expr(e, st, fuel) == (
                EvalOut::Sig(rt_err(paren@, arity_msg(f.params.len(), argv.len()))),
                st2,
            )
        }),
{
}

/// A `return` raised anywhere in a body unwinds exactly to the call
/// boundary: the call's result is the carried value, later body
/// statements never run (the signal already aborted them), and the
/// parameter scope is discarded.
pub proof fn lemma_call_returns_value(f: FunM, argv: Seq<ValM>, st: StateM, fuel: nat, v: ValM)
    requires
        ({
            let entry = StateM { env: st.env.push(bind_params(f.params, argv)), out: st.out };
            exec_stmts(f.body, entry, fuel).0 == StepOut::Sig(SigM::Ret { value: v })
        }),
    ensures
        ({
            let entry = StateM { env: st.env.push(bind_params(f.params, argv)), out: st.out };
            let st2 = exec_stmts(f.body, entry, fuel).1;
            call_fun(f, argv, st, fuel) == (
                EvalOut::Val(v),
                StateM { env: st2.env.drop_last(), out: st2.out },
            )
        }),
{
}

/// Frame-for-frame equal domains give the same resolution failures: a
/// name bound in neither chain resolves in neither.
proof fn lemma_lookup_none_preserved(
    pre: Seq<Map<Seq<char>, ValM>>,
    post: Seq<Map<Seq<char>, ValM>>,
    name: Seq<char>,
)
    requires
        post.len() == pre.len(),
        forall|i: int| 0 <= i < pre.len() ==> (#[trigger] post[i]).dom() == pre[i].dom(),
        env_lookup(pre, name) is None,
    ensures
        env_lookup(post, name) is None,
    decreases pre.len(),
{
    if pre.len() > 0 {
        assert(!pre.last().contains_key(name));
        assert(post.last().dom() == pre.last().dom());
        lemma_lookup_none_preserved(pre.drop_last(), post.drop_last(), name);
    }
}

/// Block scoping: a name that resolves nowhere before a block still
/// resolves nowhere after it, whatever the block did — its own scope is
/// discarded on exit, unconditionally, and execution never adds bindings
/// to the frames that existed before it.
pub proof fn lemma_block_leaves_no_binding(s: Stmt, st: StateM, fuel: nat, name: Seq<char>)
    requires
        st.env.len() >= 1,
        s is Block,
        env_lookup(st.env, name) is None,
    ensures
        ({
            let (r, st1) = exec_stmt(s, st, fuel);
            env_lookup(st1.env, name) is None
        }),
{
    if let Stmt::Block { statements } = s {
        let entry = StateM { env: st.env.push(Map::empty()), out: st.out };
        lemma_exec_stmts_frames(statements@, entry, fuel);
        let (r, st2) = exec_stmts(statements@, entry, fuel);
        let st1_env = st2.env.drop_last();
        assert forall|i: int| 0 <= i < st.env.len() implies (#[trigger] st1_env[i]).dom()
            == st.env[i].dom() by {
            assert(st2.env[i].dom() == entry.env[i].dom());
            assert(entry.env[i] == st.env[i]);
        }
        lemma_lookup_none_preserved(st.env, st1_env, name);
    }
}

} // verus!
