use vstd::prelude::*;

use crate::error::{InterpErr, RuntimeMsg};
use crate::token::Token;
use crate::value::{LoxObject, Val};

verus! {

/// One name bound in a scope.
#[derive(Debug)]
pub struct Binding {
    pub name: String,
    pub value: LoxObject,
}

/// One scope: its bindings and the scope it is nested in, by its place in
/// the interpreter's arena of scopes.
#[derive(Debug)]
pub struct Environment {
    vars: Vec<Binding>,
    enclosing: Option<usize>,
}

/// A scope as names and values.
#[verifier::ext_equal]
pub ghost struct EnvV {
    pub vars: Seq<(Seq<char>, Val)>,
    pub enclosing: Option<usize>,
}

/// Position of the first binding of `name` at or after `i`.
pub open spec fn find_from(vars: Seq<(Seq<char>, Val)>, name: Seq<char>, i: int) -> Option<int>
    decreases vars.len() - i,
{
    if 0 <= i < vars.len() {
        if vars[i].0 == name {
            Some(i)
        } else {
            find_from(vars, name, i + 1)
        }
    } else {
        None
    }
}

pub open spec fn find_var(vars: Seq<(Seq<char>, Val)>, name: Seq<char>) -> Option<int> {
    find_from(vars, name, 0)
}

/// Binds `name` in the scope: the binding it has is overwritten, else a new
/// one is added.
pub open spec fn define_v(env: EnvV, name: Seq<char>, v: Val) -> EnvV {
    match find_var(env.vars, name) {
        Some(i) => EnvV { vars: env.vars.update(i, (name, v)), enclosing: env.enclosing },
        None => EnvV { vars: env.vars.push((name, v)), enclosing: env.enclosing },
    }
}

/// The scope and position of the binding that `name` refers to from scope
/// `e`: the innermost scope on the chain that binds it. A parent link that
/// does not point to an earlier scope ends the chain.
pub open spec fn resolve(envs: Seq<EnvV>, e: int, name: Seq<char>) -> Option<(int, int)>
    decreases e,
{
    if 0 <= e < envs.len() {
        match find_var(envs[e].vars, name) {
            Some(i) => Some((e, i)),
            None => match envs[e].enclosing {
                Some(p) => if p < e {
                    resolve(envs, p as int, name)
                } else {
                    None
                },
                None => None,
            },
        }
    } else {
        None
    }
}

pub open spec fn undefined(name: Token) -> InterpErr {
    InterpErr::RuntimeError { line: name.line, msg: RuntimeMsg::UndefinedVariable(name.lexeme) }
}

/// Reading a variable from scope `e`.
pub open spec fn get_var(envs: Seq<EnvV>, e: int, name: Token) -> Result<Val, InterpErr> {
    match resolve(envs, e, name.lexeme@) {
        Some((k, i)) => Ok(envs[k].vars[i].1),
        None => Err(undefined(name)),
    }
}

/// Assigning a variable from scope `e`: the binding found is changed in
/// place; no binding is ever created.
pub open spec fn assign_var(envs: Seq<EnvV>, e: int, name: Token, v: Val) -> Result<
    Seq<EnvV>,
    InterpErr,
> {
    match resolve(envs, e, name.lexeme@) {
        Some((k, i)) => Ok(
            envs.update(
                k,
                EnvV { vars: envs[k].vars.update(i, (envs[k].vars[i].0, v)), enclosing: envs[k].enclosing },
            ),
        ),
        None => Err(undefined(name)),
    }
}

impl Environment {
    pub closed spec fn view(&self) -> EnvV {
        EnvV {
            vars: self.vars@.map_values(|b: Binding| (b.name@, b.value@)),
            enclosing: self.enclosing,
        }
    }

    pub fn new(enclosing: Option<usize>) -> (r: Environment)
        ensures
            r@ == (EnvV { vars: Seq::empty(), enclosing }),
    {
        let r = Environment { vars: Vec::new(), enclosing };
        assert(r@.vars =~= Seq::empty());
        r
    }

    pub fn enclosing(&self) -> (r: Option<usize>)
        ensures
            r == self@.enclosing,
    {
        self.enclosing
    }

    /// Position of the binding of `key` in this scope.
    pub fn find(&self, key: &String) -> (r: Option<usize>)
        ensures
            match r {
                Some(i) => find_var(self@.vars, key@) == Some(i as int) && i < self@.vars.len(),
                None => find_var(self@.vars, key@) is None,
            },
    {
        let mut i: usize = 0;
        while i < self.vars.len()
            invariant
                i <= self.vars@.len(),
                find_var(self@.vars, key@) == find_from(self@.vars, key@, i as int),
            decreases self.vars@.len() - i,
        {
            if self.vars[i].name == *key {
                return Some(i);
            }
            i = i + 1;
        }
        None
    }

    /// Binds `key` here, overwriting a binding it already has.
    pub fn define(&mut self, key: &String, value: LoxObject)
        ensures
            final(self)@ == define_v(old(self)@, key@, value@),
    {
        match self.find(key) {
            Some(i) => {
                self.vars.set(i, Binding { name: key.clone(), value });
            },
            None => {
                self.vars.push(Binding { name: key.clone(), value });
            },
        }
        assert(final(self)@.vars =~= define_v(old(self)@, key@, value@).vars);
    }

    pub fn value_at(&self, i: usize) -> (r: LoxObject)
        requires
            i < self@.vars.len(),
        ensures
            r@ == self@.vars[i as int].1,
    {
        self.vars[i].value.copy()
    }

    pub fn set_at(&mut self, i: usize, value: LoxObject)
        requires
            i < old(self)@.vars.len(),
        ensures
            final(self)@ == (EnvV {
                vars: old(self)@.vars.update(i as int, (old(self)@.vars[i as int].0, value@)),
                enclosing: old(self)@.enclosing,
            }),
    {
        let name = self.vars[i].name.clone();
        self.vars.set(i, Binding { name, value });
        assert(final(self)@.vars =~= old(self)@.vars.update(i as int, (old(self)@.vars[i as int].0, value@)));
    }
}

} // verus!
