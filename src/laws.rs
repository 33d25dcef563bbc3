use vstd::prelude::*;

use crate::ast::{expr_size, exprs_size, stmt_size, stmts_size, Expr, List, Stmt};
use crate::env::{define_v, find_from, find_var, get_var, resolve, undefined, EnvV};
use crate::error::{InterpErr, RuntimeMsg};
use crate::semantics::{
    arity_of, bind_params, call_function, define_in, eval_args, eval_expr, exec_list, exec_stmt,
    exec_while, release, rt_err, with_scope, FlowV, State,
};
use crate::token::Token;
use crate::value::{truthy, Callable, LoxFunction, Val};

verus! {

proof fn lemma_find_from_push(vars: Seq<(Seq<char>, Val)>, name: Seq<char>, v: Val, i: int)
    requires
        0 <= i <= vars.len(),
        find_from(vars, name, i) is None,
    ensures
        find_from(vars.push((name, v)), name, i) == Some(vars.len() as int),
    decreases vars.len() - i,
{
    if i < vars.len() {
        lemma_find_from_push(vars, name, v, i + 1);
    }
}

proof fn lemma_find_from_update(vars: Seq<(Seq<char>, Val)>, name: Seq<char>, v: Val, i: int, j: int)
    requires
        0 <= i <= j < vars.len(),
        find_from(vars, name, i) == Some(j),
    ensures
        find_from(vars.update(j, (name, v)), name, i) == Some(j),
    decreases j - i,
{
    if i < j {
        lemma_find_from_update(vars, name, v, i + 1, j);
    }
}

proof fn lemma_find_from_bounds(vars: Seq<(Seq<char>, Val)>, name: Seq<char>, i: int)
    requires
        0 <= i,
    ensures
        find_from(vars, name, i) matches Some(j) ==> i <= j < vars.len() && vars[j].0 == name,
    decreases vars.len() - i,
{
    if 0 <= i < vars.len() && vars[i].0 != name {
        lemma_find_from_bounds(vars, name, i + 1);
    }
}

/// After `name` is defined in a scope, the scope binds it to that value.
pub proof fn lemma_define_then_find(env: EnvV, name: Seq<char>, v: Val)
    ensures
        find_var(define_v(env, name, v).vars, name) matches Some(i) && define_v(env, name, v).vars[i].1
            == v,
{
    lemma_find_from_bounds(env.vars, name, 0);
    match find_var(env.vars, name) {
        Some(j) => lemma_find_from_update(env.vars, name, v, 0, j),
        None => lemma_find_from_push(env.vars, name, v, 0),
    }
}

/// Lookup from scope `e` reads only scopes `0..=e`: two arenas that agree
/// there resolve every name alike.
pub proof fn lemma_resolve_prefix(envs: Seq<EnvV>, envs2: Seq<EnvV>, e: int, name: Seq<char>)
    requires
        0 <= e < envs.len(),
        e < envs2.len(),
        forall|i: int| 0 <= i <= e ==> envs2[i] == envs[i],
    ensures
        resolve(envs2, e, name) == resolve(envs, e, name),
        resolve(envs, e, name) matches Some((k, _)) ==> 0 <= k <= e,
    decreases e,
{
    match find_var(envs[e].vars, name) {
        Some(_) => {},
        None => match envs[e].enclosing {
            Some(p) => if p < e {
                lemma_resolve_prefix(envs, envs2, p as int, name);
            },
            None => {},
        },
    }
}

/// Block scoping. In `{ let name = init; }` run in scope `env`, the
/// declaration binds `name` in the block's own scope, where it shadows any
/// outer binding; once the block is done, reading `name` from `env` gives
/// what it gave before the declaration: the outer value, or the undefined
/// variable error where there was none.
pub proof fn law_block_scope(st: State, env: usize, name: Token, init: Expr, fuel: nat)
    requires
        env < st.envs.len() < usize::MAX,
    ensures
        ({
            let block = Stmt::Block(
                List::Cons(
                    Box::new(Stmt::LetStmt { ident: name, initializer: Some(init) }),
                    Box::new(List::Nil),
                ),
            );
            let inner = st.envs.len() as usize;
            let (ri, s1) = eval_expr(with_scope(st, env), inner, init, fuel);
            let (r, s2) = exec_stmt(st, env, block, fuel);
            match ri {
                Ok(v) => {
                    let declared = define_in(s1, inner, name.lexeme@, v);
                    &&& r == Ok::<FlowV, InterpErr>(FlowV::Normal)
                    &&& get_var(declared.envs, inner as int, name) == Ok::<Val, InterpErr>(v)
                    &&& get_var(s2.envs, env as int, name) == get_var(s1.envs, env as int, name)
                },
                Err(_) => true,
            }
        }),
{
    let inner = st.envs.len() as usize;
    let decl = Stmt::LetStmt { ident: name, initializer: Some(init) };
    let body = List::Cons(Box::new(decl), Box::new(List::Nil));
    let (ri, s1) = eval_expr(with_scope(st, env), inner, init, fuel);
    if let Ok(v) = ri {
        lemma_eval_keeps_scopes(with_scope(st, env), inner, init, fuel);
        let declared = define_in(s1, inner, name.lexeme@, v);
        assert(exec_stmt(with_scope(st, env), inner, decl, fuel) == (
            Ok::<FlowV, InterpErr>(FlowV::Normal),
            declared,
        ));
        assert(exec_list(declared, inner, List::Nil, fuel) == (
            Ok::<FlowV, InterpErr>(FlowV::Normal),
            declared,
        ));
        assert(exec_list(with_scope(st, env), inner, body, fuel) == (
            Ok::<FlowV, InterpErr>(FlowV::Normal),
            declared,
        ));
        lemma_define_then_find(s1.envs[inner as int], name.lexeme@, v);
        assert(resolve(declared.envs, inner as int, name.lexeme@) matches Some((k, _)) && k == inner);
        let after = release(declared, inner as int, st.funcs.len() as int);
        lemma_resolve_prefix(s1.envs, after.envs, env as int, name.lexeme@);
    }
}

/// Evaluation never removes scopes.
pub proof fn lemma_eval_keeps_scopes(st: State, env: usize, e: Expr, fuel: nat)
    requires
        env < st.envs.len(),
    ensures
        st.envs.len() <= eval_expr(st, env, e, fuel).1.envs.len(),
    decreases fuel, expr_size(e), 0nat,
{
    match e {
        Expr::Grouping(x) => lemma_eval_keeps_scopes(st, env, *x, fuel),
        Expr::Assign { ident, value } => {
            lemma_eval_keeps_scopes(st, env, *value, fuel);
            let s1 = eval_expr(st, env, *value, fuel).1;
            lemma_resolve_prefix(s1.envs, s1.envs, env as int, ident.lexeme@);
        },
        Expr::Unary { right, .. } => lemma_eval_keeps_scopes(st, env, *right, fuel),
        Expr::Binary { left, right, .. } => {
            lemma_eval_keeps_scopes(st, env, *left, fuel);
            let s1 = eval_expr(st, env, *left, fuel).1;
            lemma_eval_keeps_scopes(s1, env, *right, fuel);
        },
        Expr::Logical { left, right, .. } => {
            lemma_eval_keeps_scopes(st, env, *left, fuel);
            let s1 = eval_expr(st, env, *left, fuel).1;
            lemma_eval_keeps_scopes(s1, env, *right, fuel);
        },
        Expr::Call { callee, args, .. } => {
            lemma_eval_keeps_scopes(st, env, *callee, fuel);
            let s1 = eval_expr(st, env, *callee, fuel).1;
            lemma_args_keep_scopes(s1, env, args, fuel);
            let (ra, s2) = eval_args(s1, env, args, fuel);
            if let (Ok(Val::Callable(Callable::Function(i))), Ok(vs)) = (
                eval_expr(st, env, *callee, fuel).0,
                ra,
            ) {
                if fuel > 0 {
                    lemma_call_keeps_scopes(s2, s2.funcs[i as int], vs, (fuel - 1) as nat);
                }
            }
        },
        _ => {},
    }
}

pub proof fn lemma_args_keep_scopes(st: State, env: usize, args: List<Expr>, fuel: nat)
    requires
        env < st.envs.len(),
    ensures
        st.envs.len() <= eval_args(st, env, args, fuel).1.envs.len(),
    decreases fuel, exprs_size(args), 0nat,
{
    if let List::Cons(e, rest) = args {
        lemma_eval_keeps_scopes(st, env, *e, fuel);
        let s1 = eval_expr(st, env, *e, fuel).1;
        lemma_args_keep_scopes(s1, env, *rest, fuel);
    }
}

pub proof fn lemma_call_keeps_scopes(st: State, f: LoxFunction, args: Seq<Val>, fuel: nat)
    ensures
        st.envs.len() <= call_function(st, f, args, fuel).1.envs.len(),
    decreases fuel, stmts_size(f.declaration.body), 1nat,
{
    assert(st.envs.len() as usize <= st.envs.len());
    let frame = bind_params(
        EnvV { vars: Seq::empty(), enclosing: Some(f.closure) },
        f.declaration.params,
        args,
        0,
    );
    let s1 = State { envs: st.envs.push(frame), ..st };
    lemma_list_keeps_scopes(s1, st.envs.len() as usize, f.declaration.body, fuel);
}

pub proof fn lemma_stmt_keeps_scopes(st: State, env: usize, s: Stmt, fuel: nat)
    requires
        env < st.envs.len(),
    ensures
        st.envs.len() <= exec_stmt(st, env, s, fuel).1.envs.len(),
    decreases fuel, stmt_size(s), 1nat,
{
    match s {
        Stmt::ExprStmt(e) => lemma_eval_keeps_scopes(st, env, e, fuel),
        Stmt::PrintStmt(e) => lemma_eval_keeps_scopes(st, env, e, fuel),
        Stmt::LetStmt { initializer, .. } => if let Some(x) = initializer {
            lemma_eval_keeps_scopes(st, env, x, fuel);
        },
        Stmt::Block(l) => lemma_list_keeps_scopes(with_scope(st, env), st.envs.len() as usize, l, fuel),
        Stmt::IfStmt { condition, if_branch, else_branch } => {
            lemma_eval_keeps_scopes(st, env, condition, fuel);
            let s1 = eval_expr(st, env, condition, fuel).1;
            lemma_stmt_keeps_scopes(s1, env, *if_branch, fuel);
            if let Some(b) = else_branch {
                lemma_stmt_keeps_scopes(s1, env, *b, fuel);
            }
        },
        Stmt::WhileStmt { .. } => lemma_while_keeps_scopes(st, env, s, fuel),
        Stmt::FnStmt(_) => {},
        Stmt::ReturnStmt { value, .. } => if let Some(x) = value {
            lemma_eval_keeps_scopes(st, env, x, fuel);
        },
    }
}

pub proof fn lemma_while_keeps_scopes(st: State, env: usize, s: Stmt, fuel: nat)
    requires
        env < st.envs.len(),
    ensures
        st.envs.len() <= exec_while(st, env, s, fuel).1.envs.len(),
    decreases fuel, stmt_size(s), 0nat,
{
    if let Stmt::WhileStmt { condition, body, .. } = s {
        lemma_eval_keeps_scopes(st, env, condition, fuel);
        let s1 = eval_expr(st, env, condition, fuel).1;
        lemma_stmt_keeps_scopes(s1, env, *body, fuel);
        let s2 = exec_stmt(s1, env, *body, fuel).1;
        if fuel > 0 {
            lemma_while_keeps_scopes(s2, env, s, (fuel - 1) as nat);
        }
    }
}

pub proof fn lemma_list_keeps_scopes(st: State, env: usize, l: List<Stmt>, fuel: nat)
    requires
        env < st.envs.len(),
    ensures
        st.envs.len() <= exec_list(st, env, l, fuel).1.envs.len(),
    decreases fuel, stmts_size(l), 0nat,
{
    if let List::Cons(s, rest) = l {
        lemma_stmt_keeps_scopes(st, env, *s, fuel);
        let s1 = exec_stmt(st, env, *s, fuel).1;
        lemma_list_keeps_scopes(s1, env, *rest, fuel);
    }
}

/// Reading a name that no scope on the chain binds fails at the line of
/// the reference, and changes nothing.
pub proof fn law_undefined_read(st: State, env: usize, name: Token, fuel: nat)
    requires
        resolve(st.envs, env as int, name.lexeme@) is None,
    ensures
        eval_expr(st, env, Expr::Var(name), fuel) == (Err::<Val, InterpErr>(
            InterpErr::RuntimeError {
                line: name.line,
                msg: RuntimeMsg::UndefinedVariable(name.lexeme),
            },
        ), st),
{
}

/// Assigning a name that no scope on the chain binds fails at the line of
/// the assignment target, after the value is evaluated; no binding is
/// created.
pub proof fn law_undefined_write(st: State, env: usize, name: Token, value: Expr, fuel: nat)
    ensures
        ({
            let (rv, s1) = eval_expr(st, env, value, fuel);
            resolve(s1.envs, env as int, name.lexeme@) is None && rv is Ok ==> eval_expr(
                st,
                env,
                Expr::Assign { ident: name, value: Box::new(value) },
                fuel,
            ) == (Err::<Val, InterpErr>(
                InterpErr::RuntimeError {
                    line: name.line,
                    msg: RuntimeMsg::UndefinedVariable(name.lexeme),
                },
            ), s1)
        }),
{
}

/// Short circuit: where the left operand of `and` is falsy, or that of `or`
/// truthy, the result is that operand and the state is the one it left;
/// the right operand is never evaluated.
pub proof fn law_short_circuit(st: State, env: usize, left: Expr, op: Token, right: Expr, fuel: nat)
    requires
        op.kind is And || op.kind is Or,
    ensures
        ({
            let (rl, s1) = eval_expr(st, env, left, fuel);
            match rl {
                Ok(v) => (op.kind is Or) == truthy(v) ==> eval_expr(
                    st,
                    env,
                    Expr::Logical { left: Box::new(left), operator: op, right: Box::new(right) },
                    fuel,
                ) == (Ok::<Val, InterpErr>(v), s1),
                Err(_) => true,
            }
        }),
{
}

/// A call whose argument count differs from the arity fails at the call
/// site with both counts, in the state the arguments left: the body does
/// not run.
pub proof fn law_arity_mismatch(
    st: State,
    env: usize,
    callee: Expr,
    paren: Token,
    args: List<Expr>,
    fuel: nat,
)
    ensures
        ({
            let (rc, s1) = eval_expr(st, env, callee, fuel);
            let (ra, s2) = eval_args(s1, env, args, fuel);
            match (rc, ra) {
                (Ok(Val::Callable(k)), Ok(vs)) => match arity_of(s2, k) {
                    Some(n) => vs.len() != n ==> eval_expr(
                        st,
                        env,
                        Expr::Call { callee: Box::new(callee), paren, args },
                        fuel,
                    ) == (Err::<Val, InterpErr>(
                        rt_err(paren.line, RuntimeMsg::Arity { expected: n, got: vs.len() as usize }),
                    ), s2),
                    None => true,
                },
                _ => true,
            }
        }),
{
}

} // verus!
