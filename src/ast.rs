use vstd::prelude::*;

use crate::number::Num;
use crate::token::Token;

verus! {

/// An immutable ordered list of syntax nodes.
#[derive(Debug)]
pub enum List<T> {
    Nil,
    Cons(Box<T>, Box<List<T>>),
}

impl<T> List<T> {
    pub open spec fn len(&self) -> nat
        decreases self,
    {
        match self {
            List::Nil => 0,
            List::Cons(_, rest) => 1 + rest.len(),
        }
    }

    /// The length, or `usize::MAX` where it is longer.
    pub open spec fn sat_len(&self) -> usize {
        if self.len() >= usize::MAX {
            usize::MAX
        } else {
            self.len() as usize
        }
    }

    pub fn count(&self) -> (r: usize)
        ensures
            r == self.sat_len(),
        decreases self,
    {
        match self {
            List::Nil => 0,
            List::Cons(_, rest) => {
                let n = rest.count();
                if n == usize::MAX {
                    n
                } else {
                    n + 1
                }
            },
        }
    }
}

#[derive(Debug)]
pub enum Literal {
    Str(String),
    Number(Num),
    Bool(bool),
    Null,
}

#[derive(Debug)]
pub enum Expr {
    Lit(Literal),
    Unary { operator: Token, right: Box<Expr> },
    Binary { left: Box<Expr>, operator: Token, right: Box<Expr> },
    Logical { left: Box<Expr>, operator: Token, right: Box<Expr> },
    Grouping(Box<Expr>),
    Var(Token),
    Assign { ident: Token, value: Box<Expr> },
    Call { callee: Box<Expr>, paren: Token, args: List<Expr> },
}

/// A function declaration: name, parameters and body.
#[derive(Debug)]
pub struct FnStmt {
    pub ident: Token,
    pub params: List<Token>,
    pub body: List<Stmt>,
}

#[derive(Debug)]
pub enum Stmt {
    ExprStmt(Expr),
    PrintStmt(Expr),
    LetStmt { ident: Token, initializer: Option<Expr> },
    Block(List<Stmt>),
    IfStmt { condition: Expr, if_branch: Box<Stmt>, else_branch: Option<Box<Stmt>> },
    /// `site` is the token a step-limit error points at: `while`, or the
    /// `)` that closes a `for` header.
    WhileStmt { site: Token, condition: Expr, body: Box<Stmt> },
    FnStmt(FnStmt),
    ReturnStmt { keyword: Token, value: Option<Expr> },
}

/// Node counts, the measure that evaluation recurses on.
pub open spec fn expr_size(e: Expr) -> nat
    decreases e,
{
    match e {
        Expr::Lit(_) => 1,
        Expr::Unary { right, .. } => 1 + expr_size(*right),
        Expr::Binary { left, right, .. } => 1 + expr_size(*left) + expr_size(*right),
        Expr::Logical { left, right, .. } => 1 + expr_size(*left) + expr_size(*right),
        Expr::Grouping(x) => 1 + expr_size(*x),
        Expr::Var(_) => 1,
        Expr::Assign { value, .. } => 1 + expr_size(*value),
        Expr::Call { callee, args, .. } => 1 + expr_size(*callee) + exprs_size(args),
    }
}

pub open spec fn exprs_size(l: List<Expr>) -> nat
    decreases l,
{
    match l {
        List::Nil => 1,
        List::Cons(e, rest) => 1 + expr_size(*e) + exprs_size(*rest),
    }
}

pub open spec fn opt_expr_size(e: Option<Expr>) -> nat {
    match e {
        Some(x) => expr_size(x),
        None => 0,
    }
}

pub open spec fn stmt_size(s: Stmt) -> nat
    decreases s,
{
    match s {
        Stmt::ExprStmt(e) => 1 + expr_size(e),
        Stmt::PrintStmt(e) => 1 + expr_size(e),
        Stmt::LetStmt { initializer, .. } => 1 + opt_expr_size(initializer),
        Stmt::Block(l) => 1 + stmts_size(l),
        Stmt::IfStmt { condition, if_branch, else_branch } => 1 + expr_size(condition)
            + stmt_size(*if_branch) + match else_branch {
            Some(b) => stmt_size(*b),
            None => 0,
        },
        Stmt::WhileStmt { condition, body, .. } => 1 + expr_size(condition) + stmt_size(*body),
        Stmt::FnStmt(f) => 1 + stmts_size(f.body),
        Stmt::ReturnStmt { value, .. } => 1 + opt_expr_size(value),
    }
}

pub open spec fn stmts_size(l: List<Stmt>) -> nat
    decreases l,
{
    match l {
        List::Nil => 1,
        List::Cons(s, rest) => 1 + stmt_size(*s) + stmts_size(*rest),
    }
}

impl Literal {
    pub fn copy(&self) -> (r: Literal)
        ensures
            r == *self,
    {
        match self {
            Literal::Str(s) => Literal::Str(s.clone()),
            Literal::Number(n) => Literal::Number(*n),
            Literal::Bool(b) => Literal::Bool(*b),
            Literal::Null => Literal::Null,
        }
    }
}

pub fn copy_tokens(l: &List<Token>) -> (r: List<Token>)
    ensures
        r == *l,
    decreases l,
{
    match l {
        List::Nil => List::Nil,
        List::Cons(t, rest) => List::Cons(Box::new((**t).copy()), Box::new(copy_tokens(rest))),
    }
}

pub fn copy_exprs(l: &List<Expr>) -> (r: List<Expr>)
    ensures
        r == *l,
    decreases l,
{
    match l {
        List::Nil => List::Nil,
        List::Cons(e, rest) => List::Cons(Box::new((**e).copy()), Box::new(copy_exprs(rest))),
    }
}

pub fn copy_stmts(l: &List<Stmt>) -> (r: List<Stmt>)
    ensures
        r == *l,
    decreases l,
{
    match l {
        List::Nil => List::Nil,
        List::Cons(s, rest) => List::Cons(Box::new((**s).copy()), Box::new(copy_stmts(rest))),
    }
}

fn copy_opt_expr(e: &Option<Expr>) -> (r: Option<Expr>)
    ensures
        r == *e,
    decreases e,
{
    match e {
        Some(x) => Some(x.copy()),
        None => None,
    }
}

impl Expr {
    pub fn copy(&self) -> (r: Expr)
        ensures
            r == *self,
        decreases self,
    {
        match self {
            Expr::Lit(l) => Expr::Lit(l.copy()),
            Expr::Unary { operator, right } => Expr::Unary {
                operator: operator.copy(),
                right: Box::new((**right).copy()),
            },
            Expr::Binary { left, operator, right } => Expr::Binary {
                left: Box::new((**left).copy()),
                operator: operator.copy(),
                right: Box::new((**right).copy()),
            },
            Expr::Logical { left, operator, right } => Expr::Logical {
                left: Box::new((**left).copy()),
                operator: operator.copy(),
                right: Box::new((**right).copy()),
            },
            Expr::Grouping(e) => Expr::Grouping(Box::new((**e).copy())),
            Expr::Var(t) => Expr::Var(t.copy()),
            Expr::Assign { ident, value } => Expr::Assign {
                ident: ident.copy(),
                value: Box::new((**value).copy()),
            },
            Expr::Call { callee, paren, args } => Expr::Call {
                callee: Box::new((**callee).copy()),
                paren: paren.copy(),
                args: copy_exprs(args),
            },
        }
    }
}

impl FnStmt {
    pub fn new(ident: Token, params: List<Token>, body: List<Stmt>) -> (r: FnStmt)
        ensures
            r == (FnStmt { ident, params, body }),
    {
        FnStmt { ident, params, body }
    }

    pub fn copy(&self) -> (r: FnStmt)
        ensures
            r == *self,
        decreases self,
    {
        FnStmt {
            ident: self.ident.copy(),
            params: copy_tokens(&self.params),
            body: copy_stmts(&self.body),
        }
    }
}

impl Stmt {
    pub fn copy(&self) -> (r: Stmt)
        ensures
            r == *self,
        decreases self,
    {
        match self {
            Stmt::ExprStmt(e) => Stmt::ExprStmt(e.copy()),
            Stmt::PrintStmt(e) => Stmt::PrintStmt(e.copy()),
            Stmt::LetStmt { ident, initializer } => Stmt::LetStmt {
                ident: ident.copy(),
                initializer: copy_opt_expr(initializer),
            },
            Stmt::Block(l) => Stmt::Block(copy_stmts(l)),
            Stmt::IfStmt { condition, if_branch, else_branch } => Stmt::IfStmt {
                condition: condition.copy(),
                if_branch: Box::new((**if_branch).copy()),
                else_branch: match else_branch {
                    Some(b) => Some(Box::new((**b).copy())),
                    None => None,
                },
            },
            Stmt::WhileStmt { site, condition, body } => Stmt::WhileStmt {
                site: site.copy(),
                condition: condition.copy(),
                body: Box::new((**body).copy()),
            },
            Stmt::FnStmt(f) => Stmt::FnStmt(f.copy()),
            Stmt::ReturnStmt { keyword, value } => Stmt::ReturnStmt {
                keyword: keyword.copy(),
                value: copy_opt_expr(value),
            },
        }
    }
}

} // verus!
