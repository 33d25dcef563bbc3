use vstd::prelude::*;

use crate::ast::{
    copy_stmts, copy_tokens, expr_size, exprs_size, stmt_size, stmts_size, Expr, FnStmt, List,
    Literal, Stmt,
};
use crate::env::{assign_var, find_from, find_var, get_var, resolve, EnvV, Environment};
use crate::error::{InterpErr, RuntimeMsg, SyntaxErrV};
use crate::lexer::{lemma_scan_wf, scan, views, Lexer};
use crate::parser::{parse_tokens, Parser};
use crate::semantics::{
    arity_of, bind_params, binary_op, call_function, define_in, eval_args, eval_expr, exec_list,
    exec_stmt, exec_while, literal_value, release, run_program, rt_err, unary_op, with_envs,
    with_line, FlowV, State,
};
use crate::token::{Token, TokenKind, TokenV};
use crate::value::{is_equal, is_truthy, to_text, Callable, Clock, LoxFunction, LoxObject, Print, Val};

verus! {

/// Index of the global scope in the arena.
pub const GLOBALS: usize = 0;

/// How a statement ended.
#[derive(Debug)]
pub enum Flow {
    Normal,
    Return(LoxObject),
}

impl Flow {
    pub open spec fn view(&self) -> FlowV {
        match self {
            Flow::Normal => FlowV::Normal,
            Flow::Return(v) => FlowV::Return(v@),
        }
    }
}

pub open spec fn val_res(r: Result<LoxObject, InterpErr>) -> Result<Val, InterpErr> {
    match r {
        Ok(v) => Ok(v@),
        Err(e) => Err(e),
    }
}

pub open spec fn flow_res(r: Result<Flow, InterpErr>) -> Result<FlowV, InterpErr> {
    match r {
        Ok(f) => Ok(f@),
        Err(e) => Err(e),
    }
}

pub open spec fn vals(vs: Seq<LoxObject>) -> Seq<Val> {
    vs.map_values(|v: LoxObject| v@)
}

/// The state a fresh interpreter starts from: a global scope that binds
/// `clock` and `show`.
pub open spec fn initial_state() -> State {
    State {
        envs: seq![
            EnvV {
                vars: seq![
                    ("clock"@, Val::Callable(Callable::Clock)),
                    ("show"@, Val::Callable(Callable::Print)),
                ],
                enclosing: None,
            },
        ],
        funcs: Seq::empty(),
        output: Seq::empty(),
        now: 0,
    }
}

fn literal_eval(l: &Literal) -> (r: LoxObject)
    ensures
        r@ == literal_value(*l),
{
    match l {
        Literal::Str(s) => LoxObject::Str(s.clone()),
        Literal::Number(n) => LoxObject::Number(*n),
        Literal::Bool(b) => LoxObject::Bool(*b),
        Literal::Null => LoxObject::Null,
    }
}

fn rt_error(line: usize, msg: RuntimeMsg) -> (r: InterpErr)
    ensures
        r == rt_err(line, msg),
{
    InterpErr::RuntimeError { line, msg }
}

/// The operator logic of a unary expression.
fn unary_op_exec(op: &Token, v: LoxObject) -> (r: Result<LoxObject, InterpErr>)
    ensures
        val_res(r) == unary_op(*op, v@),
{
    match op.kind {
        TokenKind::Bang => Ok(LoxObject::Bool(!is_truthy(&v))),
        TokenKind::Minus => match v {
            LoxObject::Number(n) => Ok(LoxObject::Number(n.neg())),
            _ => Err(rt_error(op.line, RuntimeMsg::OperandMustBeNumber)),
        },
        _ => Err(rt_error(op.line, RuntimeMsg::InvalidOperator)),
    }
}

/// The operator logic of a binary expression.
fn binary_op_exec(op: &Token, l: LoxObject, r: LoxObject) -> (res: Result<LoxObject, InterpErr>)
    ensures
        val_res(res) == binary_op(*op, l@, r@),
{
    match op.kind {
        TokenKind::Plus => match (l, r) {
            (LoxObject::Number(a), LoxObject::Number(b)) => Ok(LoxObject::Number(a.add(&b))),
            (LoxObject::Str(a), LoxObject::Str(b)) => Ok(LoxObject::Str(a.concat(b.as_str()))),
            _ => Err(rt_error(op.line, RuntimeMsg::OperandsMustBeStringsOrNumbers)),
        },
        TokenKind::BangEqual => Ok(LoxObject::Bool(!is_equal(&l, &r))),
        TokenKind::EqualEqual => Ok(LoxObject::Bool(is_equal(&l, &r))),
        TokenKind::Minus | TokenKind::Star | TokenKind::Slash | TokenKind::Greater
        | TokenKind::GreaterEqual | TokenKind::Less | TokenKind::LessEqual => match (l, r) {
            (LoxObject::Number(a), LoxObject::Number(b)) => Ok(
                match op.kind {
                    TokenKind::Minus => LoxObject::Number(a.sub(&b)),
                    TokenKind::Star => LoxObject::Number(a.mul(&b)),
                    TokenKind::Slash => LoxObject::Number(a.div(&b)),
                    TokenKind::Greater => LoxObject::Bool(b.less_than(&a)),
                    TokenKind::GreaterEqual => LoxObject::Bool(b.less_than(&a) || a.same_as(&b)),
                    TokenKind::Less => LoxObject::Bool(a.less_than(&b)),
                    _ => LoxObject::Bool(a.less_than(&b) || a.same_as(&b)),
                },
            ),
            _ => Err(rt_error(op.line, RuntimeMsg::OperandsMustBeNumbers)),
        },
        _ => Err(rt_error(op.line, RuntimeMsg::InvalidOperator)),
    }
}

/// A tree-walking evaluator. Scopes live in an arena and refer to their
/// enclosing scope by index, so closures share scopes by holding indices.
pub struct Interpreter {
    envs: Vec<Environment>,
    functions: Vec<LoxFunction>,
    output: Vec<String>,
    now: i64,
    fuel: u64,
}

impl Interpreter {
    pub closed spec fn view(&self) -> State {
        State {
            envs: self.envs@.map_values(|e: Environment| e@),
            funcs: self.functions@,
            output: self.output@.map_values(|s: String| s@),
            now: self.now,
        }
    }

    /// How deeply calls may nest and how often a loop may repeat, per chunk.
    pub closed spec fn budget(&self) -> u64 {
        self.fuel
    }

    pub closed spec fn inv(&self) -> bool {
        self.envs@.len() > 0
    }

    /// An interpreter with the given budget (see `budget`).
    pub fn with_fuel(fuel: u64) -> (r: Interpreter)
        ensures
            r@ == initial_state(),
            r.budget() == fuel,
            r.inv(),
    {
        proof {
            reveal_strlit("clock");
            reveal_strlit("show");
            assert("clock"@.len() == 5);
            assert("show"@.len() == 4);
            assert("clock"@ != "show"@);
        }
        let mut globals = Environment::new(None);
        globals.define(&String::from_str("clock"), LoxObject::Callable(Callable::Clock));
        assert(globals@.vars =~= seq![("clock"@, Val::Callable(Callable::Clock))]);
        assert(find_from(globals@.vars, "show"@, 1) is None);
        assert(find_var(globals@.vars, "show"@) is None);
        globals.define(&String::from_str("show"), LoxObject::Callable(Callable::Print));
        let mut envs = Vec::new();
        envs.push(globals);
        let r = Interpreter { envs, functions: Vec::new(), output: Vec::new(), now: 0, fuel };
        proof {
            assert(r@.envs[0].vars =~= initial_state().envs[0].vars);
            assert(r@.envs =~= initial_state().envs);
            assert(r@.output =~= initial_state().output);
        }
        r
    }

    /// An interpreter whose budget no real program exhausts.
    pub fn new() -> (r: Interpreter)
        ensures
            r@ == initial_state(),
            r.budget() == u64::MAX,
            r.inv(),
    {
        Interpreter::with_fuel(u64::MAX)
    }

    /// Binds `name` in the global scope, so an embedder can choose which host
    /// functions, and under what names, a program sees.
    pub fn define_global(&mut self, name: &String, value: LoxObject)
        requires
            old(self).inv(),
        ensures
            final(self)@ == define_in(old(self)@, GLOBALS, name@, value@),
            final(self).budget() == old(self).budget(),
            final(self).inv(),
    {
        self.define_at(GLOBALS, name, value);
    }

    /// Supplies the reading that `clock()` returns from now on.
    pub fn set_clock(&mut self, now: i64)
        ensures
            final(self)@ == (State { now, ..old(self)@ }),
            final(self).budget() == old(self).budget(),
            final(self).inv() == old(self).inv(),
    {
        self.now = now;
        assert(final(self)@ =~= (State { now, ..old(self)@ }));
    }

    /// The lines written since the last call, in order; they are removed.
    pub fn take_output(&mut self) -> (r: Vec<String>)
        ensures
            r@.map_values(|s: String| s@) == old(self)@.output,
            final(self)@ == (State { output: Seq::empty(), ..old(self)@ }),
            final(self).budget() == old(self).budget(),
            final(self).inv() == old(self).inv(),
    {
        let mut out = Vec::new();
        std::mem::swap(&mut out, &mut self.output);
        assert(final(self)@ =~= (State { output: Seq::empty(), ..old(self)@ }));
        out
    }

    /// Runs a chunk of statements in the global scope, up to the first
    /// error. State persists from chunk to chunk, also after an error.
    pub fn interpret(&mut self, stmts: Vec<Stmt>) -> (r: Result<(), InterpErr>)
        requires
            old(self).inv(),
        ensures
            (r, final(self)@) == run_program(old(self)@, GLOBALS, stmts@, 0, old(self).budget() as nat),
            final(self).budget() == old(self).budget(),
            final(self).inv(),
    {
        let mut i: usize = 0;
        while i < stmts.len()
            invariant
                self.inv(),
                self.fuel == old(self).fuel,
                i <= stmts@.len(),
                run_program(old(self)@, GLOBALS, stmts@, 0, self.fuel as nat) == run_program(
                    self@,
                    GLOBALS,
                    stmts@,
                    i as int,
                    self.fuel as nat,
                ),
            decreases stmts@.len() - i,
        {
            let fuel = self.fuel;
            match self.execute(GLOBALS, &stmts[i], fuel) {
                Ok(Flow::Normal) => {},
                Ok(Flow::Return(_)) => {
                    return Ok(());
                },
                Err(e) => {
                    return Err(e);
                },
            }
            i = i + 1;
        }
        Ok(())
    }

    fn push_line(&mut self, line: String)
        ensures
            final(self)@ == with_line(old(self)@, line@),
            final(self).envs@.len() == old(self).envs@.len(),
            final(self).fuel == old(self).fuel,
    {
        self.output.push(line);
        assert(final(self)@ =~= with_line(old(self)@, line@));
    }

    /// Adds a scope to the arena and gives its index.
    fn push_env(&mut self, env: Environment) -> (r: usize)
        ensures
            final(self)@ == (State { envs: old(self)@.envs.push(env@), ..old(self)@ }),
            r == old(self).envs@.len(),
            final(self).envs@.len() == old(self).envs@.len() + 1,
            final(self).fuel == old(self).fuel,
    {
        let r = self.envs.len();
        self.envs.push(env);
        assert(final(self)@ =~= (State { envs: old(self)@.envs.push(env@), ..old(self)@ }));
        r
    }

    /// Drops the scopes from `n` on where no function was declared since the
    /// table had `k` entries.
    fn release(&mut self, n: usize, k: usize)
        requires
            old(self).envs@.len() >= n,
        ensures
            final(self)@ == release(old(self)@, n as int, k as int),
            final(self).envs@.len() >= n,
            final(self).fuel == old(self).fuel,
    {
        if self.functions.len() == k {
            self.envs.truncate(n);
            assert(final(self)@ =~= release(old(self)@, n as int, k as int));
        }
    }

    fn define_at(&mut self, env: usize, name: &String, v: LoxObject)
        requires
            env < old(self).envs@.len(),
        ensures
            final(self)@ == define_in(old(self)@, env, name@, v@),
            final(self).envs@.len() == old(self).envs@.len(),
            final(self).fuel == old(self).fuel,
    {
        self.envs[env].define(name, v);
        assert(final(self)@ =~= define_in(old(self)@, env, name@, v@));
    }

    /// The scope and position of the binding `name` refers to from `env`.
    fn resolve(&self, env: usize, name: &String) -> (r: Option<(usize, usize)>)
        ensures
            match r {
                Some((k, i)) => resolve(self@.envs, env as int, name@) == Some((k as int, i as int))
                    && k < self@.envs.len() && i < self@.envs[k as int].vars.len(),
                None => resolve(self@.envs, env as int, name@) is None,
            },
    {
        if env >= self.envs.len() {
            return None;
        }
        let mut e = env;
        loop
            invariant
                e < self@.envs.len(),
                resolve(self@.envs, e as int, name@) == resolve(self@.envs, env as int, name@),
            decreases e,
        {
            match self.envs[e].find(name) {
                Some(i) => {
                    return Some((e, i));
                },
                None => match self.envs[e].enclosing() {
                    Some(p) => {
                        if p < e {
                            e = p;
                        } else {
                            return None;
                        }
                    },
                    None => {
                        return None;
                    },
                },
            }
        }
    }

    /// Reads variable `name` as seen from scope `env`: the innermost
    /// binding on the chain of enclosing scopes.
    pub fn get(&self, env: usize, name: &Token) -> (r: Result<LoxObject, InterpErr>)
        ensures
            val_res(r) == get_var(self@.envs, env as int, *name),
    {
        match self.resolve(env, &name.lexeme) {
            Some((k, i)) => Ok(self.envs[k].value_at(i)),
            None => Err(InterpErr::RuntimeError {
                line: name.line,
                msg: RuntimeMsg::UndefinedVariable(name.lexeme.clone()),
            }),
        }
    }

    /// Assigns variable `name` as seen from scope `env`: the innermost
    /// binding on the chain changes; no binding is ever created.
    pub fn assign(&mut self, env: usize, name: &Token, v: LoxObject) -> (r: Result<(), InterpErr>)
        ensures
            match assign_var(old(self)@.envs, env as int, *name, v@) {
                Ok(envs) => r is Ok && final(self)@ == with_envs(old(self)@, envs),
                Err(e) => r == Err::<(), InterpErr>(e) && final(self)@ == old(self)@,
            },
            final(self)@.envs.len() == old(self)@.envs.len(),
            final(self).budget() == old(self).budget(),
    {
        match self.resolve(env, &name.lexeme) {
            Some((k, i)) => {
                self.envs[k].set_at(i, v);
                proof {
                    let envs = assign_var(old(self)@.envs, env as int, *name, v@).unwrap();
                    assert(final(self)@.envs =~= envs);
                }
                Ok(())
            },
            None => Err(InterpErr::RuntimeError {
                line: name.line,
                msg: RuntimeMsg::UndefinedVariable(name.lexeme.clone()),
            }),
        }
    }

    fn evaluate(&mut self, env: usize, e: &Expr, fuel: u64) -> (r: Result<LoxObject, InterpErr>)
        requires
            env < old(self).envs@.len(),
        ensures
            (val_res(r), final(self)@) == eval_expr(old(self)@, env, *e, fuel as nat),
            old(self).envs@.len() <= final(self).envs@.len(),
            final(self).fuel == old(self).fuel,
        decreases fuel, expr_size(*e), 1nat,
    {
        match e {
            Expr::Lit(l) => Ok(literal_eval(l)),
            Expr::Grouping(x) => self.evaluate(env, x, fuel),
            Expr::Var(t) => self.get(env, t),
            Expr::Assign { .. } => self.assign_eval(env, e, fuel),
            Expr::Unary { .. } => self.unary_eval(env, e, fuel),
            Expr::Binary { .. } => self.binary_eval(env, e, fuel),
            Expr::Logical { .. } => self.logical_eval(env, e, fuel),
            Expr::Call { .. } => self.call_eval(env, e, fuel),
        }
    }

    fn assign_eval(&mut self, env: usize, e: &Expr, fuel: u64) -> (r: Result<LoxObject, InterpErr>)
        requires
            env < old(self).envs@.len(),
            e is Assign,
        ensures
            (val_res(r), final(self)@) == eval_expr(old(self)@, env, *e, fuel as nat),
            old(self).envs@.len() <= final(self).envs@.len(),
            final(self).fuel == old(self).fuel,
        decreases fuel, expr_size(*e), 0nat,
    {
        if let Expr::Assign { ident, value } = e {
            let v = match self.evaluate(env, value, fuel) {
                Ok(v) => v,
                Err(err) => {
                    return Err(err);
                },
            };
            match self.assign(env, ident, v.copy()) {
                Ok(()) => Ok(v),
                Err(err) => Err(err),
            }
        } else {
            Err(rt_error(0, RuntimeMsg::InvalidOperator))
        }
    }

    fn unary_eval(&mut self, env: usize, e: &Expr, fuel: u64) -> (r: Result<LoxObject, InterpErr>)
        requires
            env < old(self).envs@.len(),
            e is Unary,
        ensures
            (val_res(r), final(self)@) == eval_expr(old(self)@, env, *e, fuel as nat),
            old(self).envs@.len() <= final(self).envs@.len(),
            final(self).fuel == old(self).fuel,
        decreases fuel, expr_size(*e), 0nat,
    {
        if let Expr::Unary { operator, right } = e {
            match self.evaluate(env, right, fuel) {
                Ok(v) => unary_op_exec(operator, v),
                Err(err) => Err(err),
            }
        } else {
            Err(rt_error(0, RuntimeMsg::InvalidOperator))
        }
    }

    fn binary_eval(&mut self, env: usize, e: &Expr, fuel: u64) -> (r: Result<LoxObject, InterpErr>)
        requires
            env < old(self).envs@.len(),
            e is Binary,
        ensures
            (val_res(r), final(self)@) == eval_expr(old(self)@, env, *e, fuel as nat),
            old(self).envs@.len() <= final(self).envs@.len(),
            final(self).fuel == old(self).fuel,
        decreases fuel, expr_size(*e), 0nat,
    {
        if let Expr::Binary { left, operator, right } = e {
            let a = match self.evaluate(env, left, fuel) {
                Ok(v) => v,
                Err(err) => {
                    return Err(err);
                },
            };
            let b = match self.evaluate(env, right, fuel) {
                Ok(v) => v,
                Err(err) => {
                    return Err(err);
                },
            };
            binary_op_exec(operator, a, b)
        } else {
            Err(rt_error(0, RuntimeMsg::InvalidOperator))
        }
    }

    /// `and` and `or`: the right operand is evaluated only where the left
    /// one does not decide.
    fn logical_eval(&mut self, env: usize, e: &Expr, fuel: u64) -> (r: Result<LoxObject, InterpErr>)
        requires
            env < old(self).envs@.len(),
            e is Logical,
        ensures
            (val_res(r), final(self)@) == eval_expr(old(self)@, env, *e, fuel as nat),
            old(self).envs@.len() <= final(self).envs@.len(),
            final(self).fuel == old(self).fuel,
        decreases fuel, expr_size(*e), 0nat,
    {
        if let Expr::Logical { left, operator, right } = e {
            let a = match self.evaluate(env, left, fuel) {
                Ok(v) => v,
                Err(err) => {
                    return Err(err);
                },
            };
            let is_or = matches!(operator.kind, TokenKind::Or);
            if is_or == is_truthy(&a) {
                Ok(a)
            } else {
                self.evaluate(env, right, fuel)
            }
        } else {
            Err(rt_error(0, RuntimeMsg::InvalidOperator))
        }
    }

    fn eval_args(&mut self, env: usize, args: &List<Expr>, fuel: u64) -> (r: Result<
        Vec<LoxObject>,
        InterpErr,
    >)
        requires
            env < old(self).envs@.len(),
        ensures
            ({
                let (sr, s2) = eval_args(old(self)@, env, *args, fuel as nat);
                &&& final(self)@ == s2
                &&& match r {
                    Ok(vs) => sr == Ok::<Seq<Val>, InterpErr>(vals(vs@)),
                    Err(e) => sr == Err::<Seq<Val>, InterpErr>(e),
                }
            }),
            old(self).envs@.len() <= final(self).envs@.len(),
            final(self).fuel == old(self).fuel,
        decreases fuel, exprs_size(*args), 0nat,
    {
        let mut out: Vec<LoxObject> = Vec::new();
        let mut cur: &List<Expr> = args;
        loop
            invariant
                env < self.envs@.len(),
                old(self).envs@.len() <= self.envs@.len(),
                self.fuel == old(self).fuel,
                exprs_size(*cur) <= exprs_size(*args),
                ({
                    let (sr, s2) = eval_args(self@, env, *cur, fuel as nat);
                    eval_args(old(self)@, env, *args, fuel as nat) == match sr {
                        Ok(vs) => (Ok::<Seq<Val>, InterpErr>(vals(out@) + vs), s2),
                        Err(e) => (Err::<Seq<Val>, InterpErr>(e), s2),
                    }
                }),
            decreases exprs_size(*cur),
        {
            match cur {
                List::Nil => {
                    assert(vals(out@) + Seq::<Val>::empty() =~= vals(out@));
                    return Ok(out);
                },
                List::Cons(e, rest) => {
                    let ghost before = vals(out@);
                    let v = match self.evaluate(env, e, fuel) {
                        Ok(v) => v,
                        Err(err) => {
                            return Err(err);
                        },
                    };
                    out.push(v);
                    proof {
                        assert(vals(out@) =~= before.push(v@));
                        assert forall|vs: Seq<Val>| before + (seq![v@] + vs) =~= vals(out@) + vs by {}
                    }
                    cur = rest;
                },
            }
        }
    }

    fn arity(&self, c: Callable) -> (r: Option<usize>)
        ensures
            r == arity_of(self@, c),
    {
        match c {
            Callable::Clock => Some(Clock {}.arity()),
            Callable::Print => Some(Print {}.arity()),
            Callable::Function(i) => {
                if i < self.functions.len() {
                    Some(self.functions[i].arity())
                } else {
                    None
                }
            },
        }
    }

    fn call_eval(&mut self, env: usize, e: &Expr, fuel: u64) -> (r: Result<LoxObject, InterpErr>)
        requires
            env < old(self).envs@.len(),
            e is Call,
        ensures
            (val_res(r), final(self)@) == eval_expr(old(self)@, env, *e, fuel as nat),
            old(self).envs@.len() <= final(self).envs@.len(),
            final(self).fuel == old(self).fuel,
        decreases fuel, expr_size(*e), 0nat,
    {
        if let Expr::Call { callee, paren, args } = e {
            let c = match self.evaluate(env, callee, fuel) {
                Ok(v) => v,
                Err(err) => {
                    return Err(err);
                },
            };
            let vs = match self.eval_args(env, args, fuel) {
                Ok(vs) => vs,
                Err(err) => {
                    return Err(err);
                },
            };
            let k = match c {
                LoxObject::Callable(k) => k,
                _ => {
                    return Err(rt_error(paren.line, RuntimeMsg::NotCallable));
                },
            };
            let n = match self.arity(k) {
                Some(n) => n,
                None => {
                    return Err(rt_error(paren.line, RuntimeMsg::NotCallable));
                },
            };
            if vs.len() != n {
                return Err(
                    rt_error(paren.line, RuntimeMsg::Arity { expected: n, got: vs.len() }),
                );
            }
            match k {
                Callable::Clock => Ok(Clock {}.call(self.now)),
                Callable::Print => {
                    let (line, v) = Print {}.call(&self.functions, &vs[0]);
                    self.push_line(line);
                    Ok(v)
                },
                Callable::Function(i) => {
                    if fuel == 0 {
                        return Err(rt_error(paren.line, RuntimeMsg::StepLimit));
                    }
                    let f = LoxFunction::new(
                        FnStmt::new(
                            self.functions[i].declaration.ident.copy(),
                            copy_tokens(&self.functions[i].declaration.params),
                            copy_stmts(&self.functions[i].declaration.body),
                        ),
                        self.functions[i].closure,
                    );
                    self.call_function(&f, vs, fuel - 1)
                },
            }
        } else {
            Err(rt_error(0, RuntimeMsg::InvalidOperator))
        }
    }

    /// Binds parameters positionally, from argument `i` on.
    fn bind_params(frame: &mut Environment, params: &List<Token>, args: &Vec<LoxObject>)
        ensures
            final(frame)@ == bind_params(old(frame)@, *params, vals(args@), 0),
    {
        let mut cur: &List<Token> = params;
        let mut i: usize = 0;
        loop
            invariant
                bind_params(old(frame)@, *params, vals(args@), 0) == bind_params(
                    frame@,
                    *cur,
                    vals(args@),
                    i as int,
                ),
                i <= args@.len(),
            decreases cur,
        {
            match cur {
                List::Nil => {
                    return;
                },
                List::Cons(t, rest) => {
                    if i >= args.len() {
                        return;
                    }
                    frame.define(&t.lexeme, args[i].copy());
                    cur = rest;
                    i = i + 1;
                },
            }
        }
    }

    fn call_function(&mut self, f: &LoxFunction, args: Vec<LoxObject>, fuel: u64) -> (r: Result<
        LoxObject,
        InterpErr,
    >)
        ensures
            (val_res(r), final(self)@) == call_function(old(self)@, *f, vals(args@), fuel as nat),
            old(self).envs@.len() <= final(self).envs@.len(),
            final(self).fuel == old(self).fuel,
        decreases fuel, stmts_size(f.declaration.body), 1nat,
    {
        let mut frame = Environment::new(Some(f.closure));
        Interpreter::bind_params(&mut frame, &f.declaration.params, &args);
        let k = self.functions.len();
        let n = self.push_env(frame);
        let r = self.exec_list(n, &f.declaration.body, fuel);
        self.release(n, k);
        match r {
            Ok(Flow::Normal) => Ok(LoxObject::Null),
            Ok(Flow::Return(v)) => Ok(v),
            Err(e) => Err(e),
        }
    }

    fn execute(&mut self, env: usize, s: &Stmt, fuel: u64) -> (r: Result<Flow, InterpErr>)
        requires
            env < old(self).envs@.len(),
        ensures
            (flow_res(r), final(self)@) == exec_stmt(old(self)@, env, *s, fuel as nat),
            old(self).envs@.len() <= final(self).envs@.len(),
            final(self).fuel == old(self).fuel,
        decreases fuel, stmt_size(*s), 1nat,
    {
        match s {
            Stmt::ExprStmt(e) => match self.evaluate(env, e, fuel) {
                Ok(_) => Ok(Flow::Normal),
                Err(err) => Err(err),
            },
            Stmt::PrintStmt(e) => match self.evaluate(env, e, fuel) {
                Ok(v) => {
                    let line = to_text(&self.functions, &v);
                    self.push_line(line);
                    Ok(Flow::Normal)
                },
                Err(err) => Err(err),
            },
            Stmt::LetStmt { ident, initializer } => {
                let v = match initializer {
                    Some(x) => match self.evaluate(env, x, fuel) {
                        Ok(v) => v,
                        Err(err) => {
                            return Err(err);
                        },
                    },
                    None => LoxObject::Null,
                };
                self.define_at(env, &ident.lexeme, v);
                Ok(Flow::Normal)
            },
            Stmt::Block(l) => {
                let k = self.functions.len();
                let n = self.push_env(Environment::new(Some(env)));
                let r = self.exec_list(n, l, fuel);
                self.release(n, k);
                r
            },
            Stmt::IfStmt { condition, if_branch, else_branch } => {
                let c = match self.evaluate(env, condition, fuel) {
                    Ok(v) => v,
                    Err(err) => {
                        return Err(err);
                    },
                };
                if is_truthy(&c) {
                    self.execute(env, if_branch, fuel)
                } else {
                    match else_branch {
                        Some(b) => self.execute(env, b, fuel),
                        None => Ok(Flow::Normal),
                    }
                }
            },
            Stmt::WhileStmt { .. } => self.while_stmt_exec(env, s, fuel),
            Stmt::FnStmt(f) => {
                let k = self.functions.len();
                self.functions.push(LoxFunction::new(f.copy(), env));
                assert(self@ =~= (State {
                    funcs: old(self)@.funcs.push(LoxFunction { declaration: *f, closure: env }),
                    ..old(self)@
                }));
                self.define_at(env, &f.ident.lexeme, LoxObject::Callable(Callable::Function(k)));
                Ok(Flow::Normal)
            },
            Stmt::ReturnStmt { value, .. } => match value {
                Some(x) => match self.evaluate(env, x, fuel) {
                    Ok(v) => Ok(Flow::Return(v)),
                    Err(err) => Err(err),
                },
                None => Ok(Flow::Return(LoxObject::Null)),
            },
        }
    }

    fn while_stmt_exec(&mut self, env: usize, s: &Stmt, fuel: u64) -> (r: Result<Flow, InterpErr>)
        requires
            env < old(self).envs@.len(),
            s is WhileStmt,
        ensures
            (flow_res(r), final(self)@) == exec_while(old(self)@, env, *s, fuel as nat),
            old(self).envs@.len() <= final(self).envs@.len(),
            final(self).fuel == old(self).fuel,
        decreases fuel, stmt_size(*s), 0nat,
    {
        if let Stmt::WhileStmt { site, condition, body } = s {
            let mut f = fuel;
            assert(expr_size(*condition) < stmt_size(*s));
            loop
                invariant
                    *s == (Stmt::WhileStmt { site: *site, condition: *condition, body: *body }),
                    expr_size(*condition) < stmt_size(*s),
                    stmt_size(**body) < stmt_size(*s),
                    f <= fuel,
                    env < self.envs@.len(),
                    old(self).envs@.len() <= self.envs@.len(),
                    self.fuel == old(self).fuel,
                    exec_while(old(self)@, env, *s, fuel as nat) == exec_while(self@, env, *s, f as nat),
                decreases f,
            {
                let c = match self.evaluate(env, condition, f) {
                    Ok(v) => v,
                    Err(err) => {
                        return Err(err);
                    },
                };
                if !is_truthy(&c) {
                    return Ok(Flow::Normal);
                }
                match self.execute(env, body, f) {
                    Ok(Flow::Normal) => {},
                    other => {
                        return other;
                    },
                }
                if f == 0 {
                    return Err(rt_error(site.line, RuntimeMsg::StepLimit));
                }
                f = f - 1;
            }
        } else {
            Ok(Flow::Normal)
        }
    }

    /// Statements in order until one returns or fails.
    fn exec_list(&mut self, env: usize, l: &List<Stmt>, fuel: u64) -> (r: Result<Flow, InterpErr>)
        requires
            env < old(self).envs@.len(),
        ensures
            (flow_res(r), final(self)@) == exec_list(old(self)@, env, *l, fuel as nat),
            old(self).envs@.len() <= final(self).envs@.len(),
            final(self).fuel == old(self).fuel,
        decreases fuel, stmts_size(*l), 0nat,
    {
        let mut cur: &List<Stmt> = l;
        loop
            invariant
                env < self.envs@.len(),
                old(self).envs@.len() <= self.envs@.len(),
                self.fuel == old(self).fuel,
                stmts_size(*cur) <= stmts_size(*l),
                exec_list(old(self)@, env, *l, fuel as nat) == exec_list(self@, env, *cur, fuel as nat),
            decreases stmts_size(*cur),
        {
            match cur {
                List::Nil => {
                    return Ok(Flow::Normal);
                },
                List::Cons(s, rest) => {
                    match self.execute(env, s, fuel) {
                        Ok(Flow::Normal) => {},
                        other => {
                            return other;
                        },
                    }
                    cur = rest;
                },
            }
        }
    }
}

/// Scans, parses and runs one chunk of source text on `interp`. A syntax
/// error leaves the interpreter as it was.
pub fn run(source: String, interp: &mut Interpreter) -> (r: Result<(), InterpErr>)
    requires
        old(interp).inv(),
        source@.len() < usize::MAX - 1,
    ensures
        final(interp).inv(),
        final(interp).budget() == old(interp).budget(),
        match scan(source@) {
            Err(e) => r matches Err(err) && err is SyntaxError && err.syntax_view() == e
                && final(interp)@ == old(interp)@,
            Ok(tv) => exists|ts: Seq<Token>|
                #[trigger] views(ts) == tv && match parse_tokens(ts) {
                    Err(e) => r == Err::<(), InterpErr>(e) && final(interp)@ == old(interp)@,
                    Ok(stmts) => (r, final(interp)@) == run_program(
                        old(interp)@,
                        GLOBALS,
                        stmts,
                        0,
                        old(interp).budget() as nat,
                    ),
                },
        },
{
    let ghost src = source@;
    let mut lexer = Lexer::new(source);
    let tokens = match lexer.tokenized() {
        Ok(ts) => ts,
        Err(e) => {
            return Err(e);
        },
    };
    proof {
        lemma_scan_wf(src, tokens@);
    }
    let ghost ts = tokens@;
    let mut parser = Parser::new(tokens);
    let stmts = match parser.parse() {
        Ok(stmts) => stmts,
        Err(e) => {
            assert(scan(src) == Ok::<Seq<TokenV>, SyntaxErrV>(views(ts)));
            return Err(e);
        },
    };
    let r = interp.interpret(stmts);
    assert(scan(src) == Ok::<Seq<TokenV>, SyntaxErrV>(views(ts)));
    r
}

} // verus!
