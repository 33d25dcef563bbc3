use vstd::prelude::*;

use crate::ast::{expr_size, exprs_size, stmt_size, stmts_size, Expr, List, Literal, Stmt};
use crate::env::{assign_var, define_v, get_var, EnvV};
use crate::error::{InterpErr, RuntimeMsg};
use crate::number::make;
use crate::token::{Token, TokenKind};
use crate::value::{truthy, value_text, values_equal, Callable, LoxFunction, Val};

verus! {

/// Everything a program can change: the arena of scopes, the table of
/// declared functions, the lines written so far, and the clock reading the
/// embedder supplied.
#[verifier::ext_equal]
pub ghost struct State {
    pub envs: Seq<EnvV>,
    pub funcs: Seq<LoxFunction>,
    pub output: Seq<Seq<char>>,
    pub now: i64,
}

/// How a statement ended: normally, or by `return` with a value.
pub ghost enum FlowV {
    Normal,
    Return(Val),
}

pub open spec fn rt_err(line: usize, msg: RuntimeMsg) -> InterpErr {
    InterpErr::RuntimeError { line, msg }
}

pub open spec fn literal_value(l: Literal) -> Val {
    match l {
        Literal::Str(s) => Val::Str(s@),
        Literal::Number(n) => Val::Number(n),
        Literal::Bool(b) => Val::Bool(b),
        Literal::Null => Val::Null,
    }
}

pub open spec fn unary_op(op: Token, v: Val) -> Result<Val, InterpErr> {
    match op.kind {
        TokenKind::Bang => Ok(Val::Bool(!truthy(v))),
        TokenKind::Minus => match v {
            Val::Number(n) => Ok(Val::Number(n.spec_neg())),
            _ => Err(rt_err(op.line, RuntimeMsg::OperandMustBeNumber)),
        },
        _ => Err(rt_err(op.line, RuntimeMsg::InvalidOperator)),
    }
}

/// Arithmetic and comparison need two numbers, and on two numbers always
/// succeed; `+` also joins two strings; equality takes any two values.
pub open spec fn binary_op(op: Token, l: Val, r: Val) -> Result<Val, InterpErr> {
    match op.kind {
        TokenKind::Plus => match (l, r) {
            (Val::Number(a), Val::Number(b)) => Ok(Val::Number(a.spec_add(b))),
            (Val::Str(a), Val::Str(b)) => Ok(Val::Str(a + b)),
            _ => Err(rt_err(op.line, RuntimeMsg::OperandsMustBeStringsOrNumbers)),
        },
        TokenKind::BangEqual => Ok(Val::Bool(!values_equal(l, r))),
        TokenKind::EqualEqual => Ok(Val::Bool(values_equal(l, r))),
        TokenKind::Minus | TokenKind::Star | TokenKind::Slash | TokenKind::Greater
        | TokenKind::GreaterEqual | TokenKind::Less | TokenKind::LessEqual => match (l, r) {
            (Val::Number(a), Val::Number(b)) => Ok(
                match op.kind {
                    TokenKind::Minus => Val::Number(a.spec_sub(b)),
                    TokenKind::Star => Val::Number(a.spec_mul(b)),
                    TokenKind::Slash => Val::Number(a.spec_div(b)),
                    TokenKind::Greater => Val::Bool(b.less(a)),
                    TokenKind::GreaterEqual => Val::Bool(b.less(a) || a.same(b)),
                    TokenKind::Less => Val::Bool(a.less(b)),
                    _ => Val::Bool(a.less(b) || a.same(b)),
                },
            ),
            _ => Err(rt_err(op.line, RuntimeMsg::OperandsMustBeNumbers)),
        },
        _ => Err(rt_err(op.line, RuntimeMsg::InvalidOperator)),
    }
}

pub open spec fn define_in(st: State, e: usize, name: Seq<char>, v: Val) -> State {
    State { envs: st.envs.update(e as int, define_v(st.envs[e as int], name, v)), ..st }
}

pub open spec fn with_envs(st: State, envs: Seq<EnvV>) -> State {
    State { envs, ..st }
}

pub open spec fn with_line(st: State, line: Seq<char>) -> State {
    State { output: st.output.push(line), ..st }
}

/// A new empty scope nested in `enclosing`, at the end of the arena.
pub open spec fn with_scope(st: State, enclosing: usize) -> State {
    State { envs: st.envs.push(EnvV { vars: Seq::empty(), enclosing: Some(enclosing) }), ..st }
}

/// Leaving a scope that was pushed as number `n`, when the function table
/// had `k` entries: scopes from `n` on are dropped where no function was
/// declared since, as only a closure can refer to a scope after it ends.
pub open spec fn release(st: State, n: int, k: int) -> State {
    if st.funcs.len() == k && n <= st.envs.len() {
        State { envs: st.envs.subrange(0, n), ..st }
    } else {
        st
    }
}

/// Parameters bound positionally to arguments, from argument `i` on, as
/// far as there are arguments.
pub open spec fn bind_params(env: EnvV, params: List<Token>, args: Seq<Val>, i: int) -> EnvV
    decreases params,
{
    match params {
        List::Nil => env,
        List::Cons(t, rest) => if 0 <= i < args.len() {
            bind_params(define_v(env, t.lexeme@, args[i]), *rest, args, i + 1)
        } else {
            env
        },
    }
}

/// The number of arguments a callable takes; `None` for a function index
/// outside the table.
pub open spec fn arity_of(st: State, c: Callable) -> Option<usize> {
    match c {
        Callable::Clock => Some(0),
        Callable::Print => Some(1),
        Callable::Function(i) => if i < st.funcs.len() {
            Some(st.funcs[i as int].declaration.params.sat_len())
        } else {
            None
        },
    }
}

/// Evaluation of `e` in scope `env`: its value or the first error, and the
/// state after. `fuel` bounds how deeply calls nest and how often loops
/// repeat.
pub open spec fn eval_expr(st: State, env: usize, e: Expr, fuel: nat) -> (Result<Val, InterpErr>, State)
    decreases fuel, expr_size(e), 0nat,
{
    match e {
        Expr::Lit(l) => (Ok(literal_value(l)), st),
        Expr::Grouping(x) => eval_expr(st, env, *x, fuel),
        Expr::Var(t) => (get_var(st.envs, env as int, t), st),
        Expr::Assign { ident, value } => {
            let (r, s1) = eval_expr(st, env, *value, fuel);
            match r {
                Ok(v) => match assign_var(s1.envs, env as int, ident, v) {
                    Ok(envs) => (Ok(v), with_envs(s1, envs)),
                    Err(err) => (Err(err), s1),
                },
                Err(err) => (Err(err), s1),
            }
        },
        Expr::Unary { operator, right } => {
            let (r, s1) = eval_expr(st, env, *right, fuel);
            match r {
                Ok(v) => (unary_op(operator, v), s1),
                Err(err) => (Err(err), s1),
            }
        },
        Expr::Binary { left, operator, right } => {
            let (r1, s1) = eval_expr(st, env, *left, fuel);
            match r1 {
                Ok(a) => {
                    let (r2, s2) = eval_expr(s1, env, *right, fuel);
                    match r2 {
                        Ok(b) => (binary_op(operator, a, b), s2),
                        Err(err) => (Err(err), s2),
                    }
                },
                Err(err) => (Err(err), s1),
            }
        },
        Expr::Logical { left, operator, right } => {
            let (r1, s1) = eval_expr(st, env, *left, fuel);
            match r1 {
                Ok(a) => if (operator.kind is Or) == truthy(a) {
                    (Ok(a), s1)
                } else {
                    eval_expr(s1, env, *right, fuel)
                },
                Err(err) => (Err(err), s1),
            }
        },
        Expr::Call { callee, paren, args } => {
            let (r1, s1) = eval_expr(st, env, *callee, fuel);
            match r1 {
                Ok(c) => {
                    let (r2, s2) = eval_args(s1, env, args, fuel);
                    match r2 {
                        Ok(vs) => match c {
                            Val::Callable(k) => match arity_of(s2, k) {
                                Some(n) => if vs.len() != n {
                                    (
                                        Err(
                                            rt_err(
                                                paren.line,
                                                RuntimeMsg::Arity {
                                                    expected: n,
                                                    got: vs.len() as usize,
                                                },
                                            ),
                                        ),
                                        s2,
                                    )
                                } else {
                                    match k {
                                        Callable::Clock => (
                                            Ok(Val::Number(make(s2.now as int, 1))),
                                            s2,
                                        ),
                                        Callable::Print => (
                                            Ok(Val::Null),
                                            with_line(s2, value_text(s2.funcs, vs[0])),
                                        ),
                                        Callable::Function(i) => if fuel == 0 {
                                            (Err(rt_err(paren.line, RuntimeMsg::StepLimit)), s2)
                                        } else {
                                            call_function(s2, s2.funcs[i as int], vs, (fuel - 1) as nat)
                                        },
                                    }
                                },
                                None => (Err(rt_err(paren.line, RuntimeMsg::NotCallable)), s2),
                            },
                            _ => (Err(rt_err(paren.line, RuntimeMsg::NotCallable)), s2),
                        },
                        Err(err) => (Err(err), s2),
                    }
                },
                Err(err) => (Err(err), s1),
            }
        },
    }
}

/// Arguments evaluated left to right.
pub open spec fn eval_args(st: State, env: usize, args: List<Expr>, fuel: nat) -> (
    Result<Seq<Val>, InterpErr>,
    State,
)
    decreases fuel, exprs_size(args), 0nat,
{
    match args {
        List::Nil => (Ok(Seq::empty()), st),
        List::Cons(e, rest) => {
            let (r1, s1) = eval_expr(st, env, *e, fuel);
            match r1 {
                Ok(v) => {
                    let (r2, s2) = eval_args(s1, env, *rest, fuel);
                    match r2 {
                        Ok(vs) => (Ok(seq![v] + vs), s2),
                        Err(err) => (Err(err), s2),
                    }
                },
                Err(err) => (Err(err), s1),
            }
        },
    }
}

/// A call of a declared function: a new scope nested in its closure holds
/// the parameters, the body runs there, and the call yields the returned
/// value, or `null` where the body ends normally. The scope is released
/// after (see `release`).
pub open spec fn call_function(st: State, f: LoxFunction, args: Seq<Val>, fuel: nat) -> (
    Result<Val, InterpErr>,
    State,
)
    decreases fuel, stmts_size(f.declaration.body), 1nat,
{
    let frame = bind_params(
        EnvV { vars: Seq::empty(), enclosing: Some(f.closure) },
        f.declaration.params,
        args,
        0,
    );
    let s1 = State { envs: st.envs.push(frame), ..st };
    let (r, s2) = exec_list(s1, st.envs.len() as usize, f.declaration.body, fuel);
    let s3 = release(s2, st.envs.len() as int, st.funcs.len() as int);
    match r {
        Ok(FlowV::Normal) => (Ok(Val::Null), s3),
        Ok(FlowV::Return(v)) => (Ok(v), s3),
        Err(err) => (Err(err), s3),
    }
}

/// Execution of one statement in scope `env`.
pub open spec fn exec_stmt(st: State, env: usize, s: Stmt, fuel: nat) -> (
    Result<FlowV, InterpErr>,
    State,
)
    decreases fuel, stmt_size(s), 1nat,
{
    match s {
        Stmt::ExprStmt(e) => {
            let (r, s1) = eval_expr(st, env, e, fuel);
            match r {
                Ok(_) => (Ok(FlowV::Normal), s1),
                Err(err) => (Err(err), s1),
            }
        },
        Stmt::PrintStmt(e) => {
            let (r, s1) = eval_expr(st, env, e, fuel);
            match r {
                Ok(v) => (Ok(FlowV::Normal), with_line(s1, value_text(s1.funcs, v))),
                Err(err) => (Err(err), s1),
            }
        },
        Stmt::LetStmt { ident, initializer } => match initializer {
            Some(x) => {
                let (r, s1) = eval_expr(st, env, x, fuel);
                match r {
                    Ok(v) => (Ok(FlowV::Normal), define_in(s1, env, ident.lexeme@, v)),
                    Err(err) => (Err(err), s1),
                }
            },
            None => (Ok(FlowV::Normal), define_in(st, env, ident.lexeme@, Val::Null)),
        },
        Stmt::Block(l) => {
            let (r, s1) = exec_list(with_scope(st, env), st.envs.len() as usize, l, fuel);
            (r, release(s1, st.envs.len() as int, st.funcs.len() as int))
        },
        Stmt::IfStmt { condition, if_branch, else_branch } => {
            let (r, s1) = eval_expr(st, env, condition, fuel);
            match r {
                Ok(c) => if truthy(c) {
                    exec_stmt(s1, env, *if_branch, fuel)
                } else {
                    match else_branch {
                        Some(b) => exec_stmt(s1, env, *b, fuel),
                        None => (Ok(FlowV::Normal), s1),
                    }
                },
                Err(err) => (Err(err), s1),
            }
        },
        Stmt::WhileStmt { .. } => exec_while(st, env, s, fuel),
        Stmt::FnStmt(f) => {
            let k = st.funcs.len() as usize;
            let s1 = State { funcs: st.funcs.push(LoxFunction { declaration: f, closure: env }), ..st };
            (Ok(FlowV::Normal), define_in(s1, env, f.ident.lexeme@, Val::Callable(Callable::Function(k))))
        },
        Stmt::ReturnStmt { value, .. } => match value {
            Some(x) => {
                let (r, s1) = eval_expr(st, env, x, fuel);
                match r {
                    Ok(v) => (Ok(FlowV::Return(v)), s1),
                    Err(err) => (Err(err), s1),
                }
            },
            None => (Ok(FlowV::Return(Val::Null)), st),
        },
    }
}

/// A while loop `s`: the condition is evaluated before every round; each
/// further round takes one unit of fuel.
pub open spec fn exec_while(st: State, env: usize, s: Stmt, fuel: nat) -> (
    Result<FlowV, InterpErr>,
    State,
)
    decreases fuel, stmt_size(s), 0nat,
{
    match s {
        Stmt::WhileStmt { site, condition, body } => {
            let (r, s1) = eval_expr(st, env, condition, fuel);
            match r {
                Ok(c) => if !truthy(c) {
                    (Ok(FlowV::Normal), s1)
                } else {
                    let (r2, s2) = exec_stmt(s1, env, *body, fuel);
                    match r2 {
                        Ok(FlowV::Normal) => if fuel == 0 {
                            (Err(rt_err(site.line, RuntimeMsg::StepLimit)), s2)
                        } else {
                            exec_while(s2, env, s, (fuel - 1) as nat)
                        },
                        _ => (r2, s2),
                    }
                },
                Err(err) => (Err(err), s1),
            }
        },
        _ => (Ok(FlowV::Normal), st),
    }
}

/// Statements in order until one returns or fails.
pub open spec fn exec_list(st: State, env: usize, l: List<Stmt>, fuel: nat) -> (
    Result<FlowV, InterpErr>,
    State,
)
    decreases fuel, stmts_size(l), 0nat,
{
    match l {
        List::Nil => (Ok(FlowV::Normal), st),
        List::Cons(s, rest) => {
            let (r, s1) = exec_stmt(st, env, *s, fuel);
            match r {
                Ok(FlowV::Normal) => exec_list(s1, env, *rest, fuel),
                _ => (r, s1),
            }
        },
    }
}

/// A chunk of top-level statements from `i` on, in scope `env`, until one
/// fails; a `return` at top level, which the parser refuses, ends the
/// chunk.
pub open spec fn run_program(st: State, env: usize, stmts: Seq<Stmt>, i: int, fuel: nat) -> (
    Result<(), InterpErr>,
    State,
)
    decreases stmts.len() - i,
{
    if 0 <= i < stmts.len() {
        let (r, s1) = exec_stmt(st, env, stmts[i], fuel);
        match r {
            Ok(FlowV::Normal) => run_program(s1, env, stmts, i + 1, fuel),
            Ok(FlowV::Return(_)) => (Ok(()), s1),
            Err(err) => (Err(err), s1),
        }
    } else {
        (Ok(()), st)
    }
}

} // verus!
