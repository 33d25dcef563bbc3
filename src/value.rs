use vstd::prelude::*;

use crate::ast::FnStmt;
use crate::number::{make, num_text, Num};
use crate::text::text_of;

verus! {

/// What a call can reach: a host function or a declared function, by its
/// place in the interpreter's table of functions.
#[derive(Clone, Copy, PartialEq, Eq, Structural, Debug)]
pub enum Callable {
    Clock,
    Print,
    Function(usize),
}

/// A runtime value.
#[derive(Debug)]
pub enum LoxObject {
    Number(Num),
    Str(String),
    Bool(bool),
    Null,
    Callable(Callable),
}

/// A runtime value with its string as characters.
pub ghost enum Val {
    Number(Num),
    Str(Seq<char>),
    Bool(bool),
    Null,
    Callable(Callable),
}

/// A user-defined function: its declaration and the environment it closes
/// over.
#[derive(Debug)]
pub struct LoxFunction {
    pub declaration: FnStmt,
    pub closure: usize,
}

/// The host clock: no arguments, the time the embedder last supplied, in
/// seconds.
pub struct Clock {}

/// The host printer: one argument, written out as a line.
pub struct Print {}

impl LoxObject {
    pub open spec fn view(&self) -> Val {
        match self {
            LoxObject::Number(n) => Val::Number(*n),
            LoxObject::Str(s) => Val::Str(s@),
            LoxObject::Bool(b) => Val::Bool(*b),
            LoxObject::Null => Val::Null,
            LoxObject::Callable(c) => Val::Callable(*c),
        }
    }

    pub fn copy(&self) -> (r: LoxObject)
        ensures
            r == *self,
    {
        match self {
            LoxObject::Number(n) => LoxObject::Number(*n),
            LoxObject::Str(s) => LoxObject::Str(s.clone()),
            LoxObject::Bool(b) => LoxObject::Bool(*b),
            LoxObject::Null => LoxObject::Null,
            LoxObject::Callable(c) => LoxObject::Callable(*c),
        }
    }
}

/// Only `false` and `null` are falsy.
pub open spec fn truthy(v: Val) -> bool {
    match v {
        Val::Bool(b) => b,
        Val::Null => false,
        _ => true,
    }
}

/// Equality by tag and value; values of different tags are never equal.
pub open spec fn values_equal(a: Val, b: Val) -> bool {
    match (a, b) {
        (Val::Number(x), Val::Number(y)) => x.same(y),
        (Val::Str(x), Val::Str(y)) => x == y,
        (Val::Bool(x), Val::Bool(y)) => x == y,
        (Val::Null, Val::Null) => true,
        (Val::Callable(x), Val::Callable(y)) => x == y,
        _ => false,
    }
}

/// How a value is written out; a declared function by the name in its
/// declaration.
pub open spec fn value_text(funcs: Seq<LoxFunction>, v: Val) -> Seq<char> {
    match v {
        Val::Number(n) => num_text(n),
        Val::Str(s) => s,
        Val::Bool(b) => if b {
            "true"@
        } else {
            "false"@
        },
        Val::Null => "null"@,
        Val::Callable(Callable::Clock) => "<native fn> clock"@,
        Val::Callable(Callable::Print) => "<native fn show>"@,
        Val::Callable(Callable::Function(i)) => if i < funcs.len() {
            "<fn "@ + funcs[i as int].declaration.ident.lexeme@ + ">"@
        } else {
            "<fn>"@
        },
    }
}

pub fn is_truthy(v: &LoxObject) -> (r: bool)
    ensures
        r == truthy(v@),
{
    match v {
        LoxObject::Bool(b) => *b,
        LoxObject::Null => false,
        _ => true,
    }
}

pub fn is_equal(a: &LoxObject, b: &LoxObject) -> (r: bool)
    ensures
        r == values_equal(a@, b@),
{
    match (a, b) {
        (LoxObject::Number(x), LoxObject::Number(y)) => x.same_as(y),
        (LoxObject::Str(x), LoxObject::Str(y)) => *x == *y,
        (LoxObject::Bool(x), LoxObject::Bool(y)) => *x == *y,
        (LoxObject::Null, LoxObject::Null) => true,
        (LoxObject::Callable(x), LoxObject::Callable(y)) => *x == *y,
        _ => false,
    }
}

/// How a value is written out.
pub fn to_text(funcs: &Vec<LoxFunction>, v: &LoxObject) -> (r: String)
    ensures
        r@ == value_text(funcs@, v@),
{
    match v {
        LoxObject::Number(n) => {
            let mut cs: Vec<char> = Vec::new();
            n.push_text(&mut cs);
            assert(cs@ =~= num_text(*n));
            text_of(&cs, 0, cs.len())
        },
        LoxObject::Str(s) => s.clone(),
        LoxObject::Bool(b) => if *b {
            String::from_str("true")
        } else {
            String::from_str("false")
        },
        LoxObject::Null => String::from_str("null"),
        LoxObject::Callable(Callable::Clock) => Clock {}.to_string(),
        LoxObject::Callable(Callable::Print) => Print {}.to_string(),
        LoxObject::Callable(Callable::Function(i)) => if *i < funcs.len() {
            funcs[*i].to_string()
        } else {
            String::from_str("<fn>")
        },
    }
}

impl LoxFunction {
    pub fn new(declaration: FnStmt, closure: usize) -> (r: LoxFunction)
        ensures
            r == (LoxFunction { declaration, closure }),
    {
        LoxFunction { declaration, closure }
    }

    /// The number of parameters, `usize::MAX` for a list that long.
    pub fn arity(&self) -> (r: usize)
        ensures
            r == self.declaration.params.sat_len(),
    {
        self.declaration.params.count()
    }

    pub fn to_string(&self) -> (r: String)
        ensures
            r@ == "<fn "@ + self.declaration.ident.lexeme@ + ">"@,
    {
        let mut s = String::from_str("<fn ");
        s.append(self.declaration.ident.lexeme.as_str());
        s.append(">");
        s
    }
}

impl Clock {
    pub fn arity(&self) -> (r: usize)
        ensures
            r == 0,
    {
        0
    }

    pub fn to_string(&self) -> (r: String)
        ensures
            r@ == "<native fn> clock"@,
    {
        String::from_str("<native fn> clock")
    }

    /// The reading `now`, as a number.
    pub fn call(&self, now: i64) -> (r: LoxObject)
        ensures
            r == LoxObject::Number(make(now as int, 1)),
    {
        LoxObject::Number(Num::from_int(now))
    }
}

impl Print {
    pub fn arity(&self) -> (r: usize)
        ensures
            r == 1,
    {
        1
    }

    pub fn to_string(&self) -> (r: String)
        ensures
            r@ == "<native fn show>"@,
    {
        String::from_str("<native fn show>")
    }

    /// The line written for `arg`, and the call's result, `null`.
    pub fn call(&self, funcs: &Vec<LoxFunction>, arg: &LoxObject) -> (r: (String, LoxObject))
        ensures
            r.0@ == value_text(funcs@, arg@),
            r.1 == LoxObject::Null,
    {
        (to_text(funcs, arg), LoxObject::Null)
    }
}

} // verus!
