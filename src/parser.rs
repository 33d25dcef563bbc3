use vstd::prelude::*;

use crate::ast::{Expr, FnStmt, List, Literal, Stmt};
use crate::error::{Expected, InterpErr, SyntaxMsg};
use crate::token::{Token, TokenKind};

verus! {

/// Most arguments in a call, and most parameters of a function.
pub const MAX_ARGS: usize = 255;

/// A token sequence the parser accepts: it ends in the one end marker.
pub open spec fn tokens_wf(toks: Seq<Token>) -> bool {
    &&& 0 < toks.len() < usize::MAX
    &&& toks.last().kind is Eof
    &&& forall|i: int| 0 <= i < toks.len() - 1 ==> !(#[trigger] toks[i].kind is Eof)
}

/// A parse of one construct from a position: the node and the position
/// after it, or the first syntax error.
pub type Parsed<T> = Result<(T, int), InterpErr>;

pub open spec fn kind_at(toks: Seq<Token>, p: int) -> TokenKind {
    if 0 <= p < toks.len() {
        toks[p].kind
    } else {
        TokenKind::Eof
    }
}

pub open spec fn err_at(toks: Seq<Token>, p: int, msg: SyntaxMsg) -> InterpErr {
    InterpErr::SyntaxError { line: toks[p].line, msg, place: toks[p].lexeme }
}

pub open spec fn kind_is(k: TokenKind, what: Expected) -> bool {
    match what {
        Expected::Semicolon => k is Semicolon,
        Expected::LeftParen => k is LeftParen,
        Expected::RightParen => k is RightParen,
        Expected::LeftBrace => k is LeftBrace,
        Expected::RightBrace => k is RightBrace,
        Expected::Identifier => k is Identifier,
        Expected::Expression => false,
    }
}

/// Operators of the binary levels, loosest last: 1 factor, 2 term,
/// 3 comparison, 4 equality, 5 `and`, 6 `or`.
pub open spec fn level_op(k: TokenKind, level: nat) -> bool {
    if level <= 1 {
        k is Slash || k is Star
    } else if level == 2 {
        k is Minus || k is Plus
    } else if level == 3 {
        k is Greater || k is GreaterEqual || k is Less || k is LessEqual
    } else if level == 4 {
        k is BangEqual || k is EqualEqual
    } else if level == 5 {
        k is And
    } else {
        k is Or
    }
}

pub open spec fn combine(level: nat, left: Expr, op: Token, right: Expr) -> Expr {
    if level >= 5 {
        Expr::Logical { left: Box::new(left), operator: op, right: Box::new(right) }
    } else {
        Expr::Binary { left: Box::new(left), operator: op, right: Box::new(right) }
    }
}

pub open spec fn p_primary(toks: Seq<Token>, p: int) -> Parsed<Expr>
    decreases toks.len() - p, 0nat,
{
    match kind_at(toks, p) {
        TokenKind::False => Ok((Expr::Lit(Literal::Bool(false)), p + 1)),
        TokenKind::True => Ok((Expr::Lit(Literal::Bool(true)), p + 1)),
        TokenKind::Null => Ok((Expr::Lit(Literal::Null), p + 1)),
        TokenKind::Number(n) => Ok((Expr::Lit(Literal::Number(n)), p + 1)),
        TokenKind::String(s) => Ok((Expr::Lit(Literal::Str(s)), p + 1)),
        TokenKind::Identifier => Ok((Expr::Var(toks[p]), p + 1)),
        TokenKind::LeftParen => match p_expression(toks, p + 1) {
            Ok((e, q)) => if kind_at(toks, q) is RightParen {
                Ok((Expr::Grouping(Box::new(e)), q + 1))
            } else {
                Err(err_at(toks, q, SyntaxMsg::Expected(Expected::RightParen)))
            },
            Err(e) => Err(e),
        },
        _ => Err(err_at(toks, p, SyntaxMsg::Expected(Expected::Expression))),
    }
}

/// Comma-separated arguments from `p`, `n` of them already read.
pub open spec fn p_args(toks: Seq<Token>, p: int, n: nat) -> Parsed<List<Expr>>
    decreases toks.len() - p, 18nat,
{
    if n >= MAX_ARGS {
        Err(err_at(toks, p, SyntaxMsg::TooManyArguments))
    } else {
        match p_expression(toks, p) {
            Ok((e, q)) => if kind_at(toks, q) is Comma && p < q {
                match p_args(toks, q + 1, n + 1) {
                    Ok((rest, q2)) => Ok((List::Cons(Box::new(e), Box::new(rest)), q2)),
                    Err(err) => Err(err),
                }
            } else {
                Ok((List::Cons(Box::new(e), Box::new(List::Nil)), q))
            },
            Err(err) => Err(err),
        }
    }
}

/// Call suffixes `( args )` after the callee read so far.
pub open spec fn p_call_tail(toks: Seq<Token>, p: int, callee: Expr) -> Parsed<Expr>
    decreases toks.len() - p, 1nat,
{
    if kind_at(toks, p) is LeftParen {
        let args = if kind_at(toks, p + 1) is RightParen {
            Ok((List::Nil, p + 1))
        } else {
            p_args(toks, p + 1, 0)
        };
        match args {
            Ok((args, q)) => if kind_at(toks, q) is RightParen && p < q {
                p_call_tail(
                    toks,
                    q + 1,
                    Expr::Call { callee: Box::new(callee), paren: toks[q], args },
                )
            } else {
                Err(err_at(toks, q, SyntaxMsg::Expected(Expected::RightParen)))
            },
            Err(e) => Err(e),
        }
    } else {
        Ok((callee, p))
    }
}

pub open spec fn p_call(toks: Seq<Token>, p: int) -> Parsed<Expr>
    decreases toks.len() - p, 2nat,
{
    match p_primary(toks, p) {
        Ok((e, q)) => if p < q <= toks.len() {
            p_call_tail(toks, q, e)
        } else {
            Ok((e, q))
        },
        Err(e) => Err(e),
    }
}

pub open spec fn p_unary(toks: Seq<Token>, p: int) -> Parsed<Expr>
    decreases toks.len() - p, 3nat,
{
    if kind_at(toks, p) is Bang || kind_at(toks, p) is Minus {
        match p_unary(toks, p + 1) {
            Ok((r, q)) => Ok((Expr::Unary { operator: toks[p], right: Box::new(r) }, q)),
            Err(e) => Err(e),
        }
    } else {
        p_call(toks, p)
    }
}

/// Operators of `level` and their right operands, after the left operand.
pub open spec fn p_binary_tail(toks: Seq<Token>, p: int, level: nat, left: Expr) -> Parsed<Expr>
    decreases toks.len() - p, 2 * level + 3,
{
    if level_op(kind_at(toks, p), level) {
        let right = if level <= 1 {
            p_unary(toks, p + 1)
        } else {
            p_binary(toks, p + 1, (level - 1) as nat)
        };
        match right {
            Ok((r, q)) => if p < q <= toks.len() {
                p_binary_tail(toks, q, level, combine(level, left, toks[p], r))
            } else {
                Ok((left, p))
            },
            Err(e) => Err(e),
        }
    } else {
        Ok((left, p))
    }
}

/// One left-associative binary level (see `level_op`).
pub open spec fn p_binary(toks: Seq<Token>, p: int, level: nat) -> Parsed<Expr>
    decreases toks.len() - p, 2 * level + 4,
{
    let first = if level <= 1 {
        p_unary(toks, p)
    } else {
        p_binary(toks, p, (level - 1) as nat)
    };
    match first {
        Ok((l, q)) => if p < q <= toks.len() {
            p_binary_tail(toks, q, level, l)
        } else {
            Ok((l, q))
        },
        Err(e) => Err(e),
    }
}

/// An expression: an assignment, right-associative, or a disjunction.
pub open spec fn p_expression(toks: Seq<Token>, p: int) -> Parsed<Expr>
    decreases toks.len() - p, 17nat,
{
    match p_binary(toks, p, 6) {
        Ok((e, q)) => if kind_at(toks, q) is Equal && p < q {
            match p_expression(toks, q + 1) {
                Ok((v, q2)) => match e {
                    Expr::Var(name) => Ok((Expr::Assign { ident: name, value: Box::new(v) }, q2)),
                    _ => Err(err_at(toks, q, SyntaxMsg::InvalidAssignmentTarget)),
                },
                Err(err) => Err(err),
            }
        } else {
            Ok((e, q))
        },
        Err(err) => Err(err),
    }
}

pub open spec fn semi_after(toks: Seq<Token>, p: int, s: Stmt) -> Parsed<Stmt> {
    if kind_at(toks, p) is Semicolon {
        Ok((s, p + 1))
    } else {
        Err(err_at(toks, p, SyntaxMsg::Expected(Expected::Semicolon)))
    }
}

pub open spec fn p_expr_stmt(toks: Seq<Token>, p: int) -> Parsed<Stmt>
    decreases toks.len() - p, 19nat,
{
    match p_expression(toks, p) {
        Ok((e, q)) => semi_after(toks, q, Stmt::ExprStmt(e)),
        Err(e) => Err(e),
    }
}

pub open spec fn p_print(toks: Seq<Token>, p: int) -> Parsed<Stmt>
    decreases toks.len() - p, 19nat,
{
    match p_expression(toks, p) {
        Ok((e, q)) => semi_after(toks, q, Stmt::PrintStmt(e)),
        Err(e) => Err(e),
    }
}

/// A variable declaration after `let`.
pub open spec fn p_let(toks: Seq<Token>, p: int) -> Parsed<Stmt>
    decreases toks.len() - p, 19nat,
{
    if kind_at(toks, p) is Identifier {
        if kind_at(toks, p + 1) is Equal {
            match p_expression(toks, p + 2) {
                Ok((e, q)) => semi_after(
                    toks,
                    q,
                    Stmt::LetStmt { ident: toks[p], initializer: Some(e) },
                ),
                Err(e) => Err(e),
            }
        } else {
            semi_after(toks, p + 1, Stmt::LetStmt { ident: toks[p], initializer: None })
        }
    } else {
        Err(err_at(toks, p, SyntaxMsg::Expected(Expected::Identifier)))
    }
}

/// A return statement after `return`, whose keyword is the token before `p`.
pub open spec fn p_return(toks: Seq<Token>, p: int) -> Parsed<Stmt>
    decreases toks.len() - p, 19nat,
{
    if kind_at(toks, p) is Semicolon {
        Ok((Stmt::ReturnStmt { keyword: toks[p - 1], value: None }, p + 1))
    } else {
        match p_expression(toks, p) {
            Ok((e, q)) => semi_after(
                toks,
                q,
                Stmt::ReturnStmt { keyword: toks[p - 1], value: Some(e) },
            ),
            Err(e) => Err(e),
        }
    }
}

/// A parenthesized condition: `( expression )`.
pub open spec fn p_condition(toks: Seq<Token>, p: int) -> Parsed<Expr>
    decreases toks.len() - p, 19nat,
{
    if kind_at(toks, p) is LeftParen {
        match p_expression(toks, p + 1) {
            Ok((c, q)) => if kind_at(toks, q) is RightParen {
                Ok((c, q + 1))
            } else {
                Err(err_at(toks, q, SyntaxMsg::Expected(Expected::RightParen)))
            },
            Err(e) => Err(e),
        }
    } else {
        Err(err_at(toks, p, SyntaxMsg::Expected(Expected::LeftParen)))
    }
}

/// An if statement after `if`.
pub open spec fn p_if(toks: Seq<Token>, p: int, in_fn: bool) -> Parsed<Stmt>
    decreases toks.len() - p, 20nat,
{
    match p_condition(toks, p) {
        Ok((c, q)) => if p < q {
            match p_statement(toks, q, in_fn) {
                Ok((then_b, q2)) => if kind_at(toks, q2) is Else && p < q2 {
                    match p_statement(toks, q2 + 1, in_fn) {
                        Ok((else_b, q3)) => Ok(
                            (
                                Stmt::IfStmt {
                                    condition: c,
                                    if_branch: Box::new(then_b),
                                    else_branch: Some(Box::new(else_b)),
                                },
                                q3,
                            ),
                        ),
                        Err(e) => Err(e),
                    }
                } else {
                    Ok(
                        (
                            Stmt::IfStmt {
                                condition: c,
                                if_branch: Box::new(then_b),
                                else_branch: None,
                            },
                            q2,
                        ),
                    )
                },
                Err(e) => Err(e),
            }
        } else {
            Err(err_at(toks, p, SyntaxMsg::Expected(Expected::LeftParen)))
        },
        Err(e) => Err(e),
    }
}

/// A while statement after `while`.
pub open spec fn p_while(toks: Seq<Token>, p: int, in_fn: bool) -> Parsed<Stmt>
    decreases toks.len() - p, 20nat,
{
    match p_condition(toks, p) {
        Ok((c, q)) => if p < q {
            match p_statement(toks, q, in_fn) {
                Ok((body, q2)) => Ok(
                    (Stmt::WhileStmt { site: toks[p - 1], condition: c, body: Box::new(body) }, q2),
                ),
                Err(e) => Err(e),
            }
        } else {
            Err(err_at(toks, p, SyntaxMsg::Expected(Expected::LeftParen)))
        },
        Err(e) => Err(e),
    }
}

/// `for (I; C; X) B` as `{ I; while (C) { B; X; } }`, with `true` for a
/// missing condition and the parts left out that are missing; `site` is
/// the `)` closing the header.
pub open spec fn desugar_for(
    site: Token,
    init: Option<Stmt>,
    cond: Option<Expr>,
    inc: Option<Expr>,
    body: Stmt,
) -> Stmt {
    let body = match inc {
        Some(x) => Stmt::Block(
            List::Cons(
                Box::new(body),
                Box::new(List::Cons(Box::new(Stmt::ExprStmt(x)), Box::new(List::Nil))),
            ),
        ),
        None => body,
    };
    let cond = match cond {
        Some(c) => c,
        None => Expr::Lit(Literal::Bool(true)),
    };
    let w = Stmt::WhileStmt { site, condition: cond, body: Box::new(body) };
    match init {
        Some(i) => Stmt::Block(
            List::Cons(Box::new(i), Box::new(List::Cons(Box::new(w), Box::new(List::Nil)))),
        ),
        None => w,
    }
}

/// The rest of a for statement from its increment on.
pub open spec fn p_for_inc(
    toks: Seq<Token>,
    p: int,
    init: Option<Stmt>,
    cond: Option<Expr>,
    in_fn: bool,
) -> Parsed<Stmt>
    decreases toks.len() - p, 20nat,
{
    let inc = if kind_at(toks, p) is RightParen {
        Ok((None, p))
    } else {
        match p_expression(toks, p) {
            Ok((x, q)) => Ok((Some(x), q)),
            Err(e) => Err(e),
        }
    };
    match inc {
        Ok((inc, q)) => if kind_at(toks, q) is RightParen && p <= q {
            match p_statement(toks, q + 1, in_fn) {
                Ok((body, q2)) => Ok((desugar_for(toks[q], init, cond, inc, body), q2)),
                Err(e) => Err(e),
            }
        } else {
            Err(err_at(toks, q, SyntaxMsg::Expected(Expected::RightParen)))
        },
        Err(e) => Err(e),
    }
}

/// The rest of a for statement from its condition on.
pub open spec fn p_for_cond(toks: Seq<Token>, p: int, init: Option<Stmt>, in_fn: bool) -> Parsed<Stmt>
    decreases toks.len() - p, 21nat,
{
    let cond = if kind_at(toks, p) is Semicolon {
        Ok((None, p))
    } else {
        match p_expression(toks, p) {
            Ok((c, q)) => Ok((Some(c), q)),
            Err(e) => Err(e),
        }
    };
    match cond {
        Ok((cond, q)) => if kind_at(toks, q) is Semicolon && p <= q {
            p_for_inc(toks, q + 1, init, cond, in_fn)
        } else {
            Err(err_at(toks, q, SyntaxMsg::Expected(Expected::Semicolon)))
        },
        Err(e) => Err(e),
    }
}

/// A for statement after `for`.
pub open spec fn p_for(toks: Seq<Token>, p: int, in_fn: bool) -> Parsed<Stmt>
    decreases toks.len() - p, 22nat,
{
    if kind_at(toks, p) is LeftParen {
        if kind_at(toks, p + 1) is Semicolon {
            p_for_cond(toks, p + 2, None, in_fn)
        } else {
            let init = if kind_at(toks, p + 1) is Let {
                p_let(toks, p + 2)
            } else {
                p_expr_stmt(toks, p + 1)
            };
            match init {
                Ok((i, q)) => if p < q {
                    p_for_cond(toks, q, Some(i), in_fn)
                } else {
                    Err(err_at(toks, q, SyntaxMsg::Expected(Expected::Semicolon)))
                },
                Err(e) => Err(e),
            }
        }
    } else {
        Err(err_at(toks, p, SyntaxMsg::Expected(Expected::LeftParen)))
    }
}

/// Comma-separated parameter names from `p`, `n` of them already read.
pub open spec fn p_params(toks: Seq<Token>, p: int, n: nat) -> Parsed<List<Token>>
    decreases toks.len() - p,
{
    if n >= MAX_ARGS {
        Err(err_at(toks, p, SyntaxMsg::TooManyParameters))
    } else if kind_at(toks, p) is Identifier {
        if kind_at(toks, p + 1) is Comma {
            match p_params(toks, p + 2, n + 1) {
                Ok((rest, q)) => Ok((List::Cons(Box::new(toks[p]), Box::new(rest)), q)),
                Err(e) => Err(e),
            }
        } else {
            Ok((List::Cons(Box::new(toks[p]), Box::new(List::Nil)), p + 1))
        }
    } else {
        Err(err_at(toks, p, SyntaxMsg::Expected(Expected::Identifier)))
    }
}

/// A function declaration after `fn`.
pub open spec fn p_fn(toks: Seq<Token>, p: int) -> Parsed<Stmt>
    decreases toks.len() - p, 20nat,
{
    if !(kind_at(toks, p) is Identifier) {
        Err(err_at(toks, p, SyntaxMsg::Expected(Expected::Identifier)))
    } else if !(kind_at(toks, p + 1) is LeftParen) {
        Err(err_at(toks, p + 1, SyntaxMsg::Expected(Expected::LeftParen)))
    } else {
        let params = if kind_at(toks, p + 2) is RightParen {
            Ok((List::Nil, p + 2))
        } else {
            p_params(toks, p + 2, 0)
        };
        match params {
            Ok((params, q)) => if !(kind_at(toks, q) is RightParen) {
                Err(err_at(toks, q, SyntaxMsg::Expected(Expected::RightParen)))
            } else if !(kind_at(toks, q + 1) is LeftBrace) {
                Err(err_at(toks, q + 1, SyntaxMsg::Expected(Expected::LeftBrace)))
            } else if p < q {
                match p_block_rest(toks, q + 2, true) {
                    Ok((body, q2)) => Ok(
                        (Stmt::FnStmt(FnStmt { ident: toks[p], params, body }), q2),
                    ),
                    Err(e) => Err(e),
                }
            } else {
                Err(err_at(toks, q, SyntaxMsg::Expected(Expected::RightParen)))
            },
            Err(e) => Err(e),
        }
    }
}

/// The declarations of a block up to and including its `}`.
pub open spec fn p_block_rest(toks: Seq<Token>, p: int, in_fn: bool) -> Parsed<List<Stmt>>
    decreases toks.len() - p, 25nat,
{
    if kind_at(toks, p) is RightBrace {
        Ok((List::Nil, p + 1))
    } else if kind_at(toks, p) is Eof {
        Err(err_at(toks, p, SyntaxMsg::Expected(Expected::RightBrace)))
    } else {
        match p_declaration(toks, p, in_fn) {
            Ok((s, q)) => if p < q <= toks.len() {
                match p_block_rest(toks, q, in_fn) {
                    Ok((rest, q2)) => Ok((List::Cons(Box::new(s), Box::new(rest)), q2)),
                    Err(e) => Err(e),
                }
            } else {
                Err(err_at(toks, q, SyntaxMsg::Expected(Expected::RightBrace)))
            },
            Err(e) => Err(e),
        }
    }
}

pub open spec fn p_statement(toks: Seq<Token>, p: int, in_fn: bool) -> Parsed<Stmt>
    decreases toks.len() - p, 23nat,
{
    match kind_at(toks, p) {
        TokenKind::Print => p_print(toks, p + 1),
        TokenKind::LeftBrace => match p_block_rest(toks, p + 1, in_fn) {
            Ok((l, q)) => Ok((Stmt::Block(l), q)),
            Err(e) => Err(e),
        },
        TokenKind::If => p_if(toks, p + 1, in_fn),
        TokenKind::While => p_while(toks, p + 1, in_fn),
        TokenKind::For => p_for(toks, p + 1, in_fn),
        TokenKind::Fn => p_fn(toks, p + 1),
        TokenKind::Return => if in_fn {
            p_return(toks, p + 1)
        } else {
            Err(err_at(toks, p, SyntaxMsg::ReturnOutsideFunction))
        },
        _ => p_expr_stmt(toks, p),
    }
}

pub open spec fn p_declaration(toks: Seq<Token>, p: int, in_fn: bool) -> Parsed<Stmt>
    decreases toks.len() - p, 24nat,
{
    if kind_at(toks, p) is Let {
        p_let(toks, p + 1)
    } else {
        p_statement(toks, p, in_fn)
    }
}

/// The declarations from `p` to the end marker, after those in `acc`.
pub open spec fn p_program(toks: Seq<Token>, p: int, acc: Seq<Stmt>) -> Result<Seq<Stmt>, InterpErr>
    decreases toks.len() - p,
{
    if kind_at(toks, p) is Eof {
        Ok(acc)
    } else {
        match p_declaration(toks, p, false) {
            Ok((s, q)) => if p < q <= toks.len() {
                p_program(toks, q, acc.push(s))
            } else {
                Ok(acc)
            },
            Err(e) => Err(e),
        }
    }
}

/// The statements of a whole token sequence, or its first syntax error.
pub open spec fn parse_tokens(toks: Seq<Token>) -> Result<Seq<Stmt>, InterpErr> {
    p_program(toks, 0, Seq::empty())
}

pub open spec fn lift<T>(r: Result<(T, usize), InterpErr>) -> Parsed<T> {
    match r {
        Ok((t, p)) => Ok((t, p as int)),
        Err(e) => Err(e),
    }
}

/// Where a parse succeeds it has moved past at least one token, and not
/// past the end marker.
pub open spec fn advanced<T>(r: Result<(T, usize), InterpErr>, p: usize, len: nat) -> bool {
    r matches Ok((_, q)) ==> p < q < len
}

fn combine_exec(level: usize, left: Expr, op: Token, right: Expr) -> (r: Expr)
    ensures
        r == combine(level as nat, left, op, right),
{
    if level >= 5 {
        Expr::Logical { left: Box::new(left), operator: op, right: Box::new(right) }
    } else {
        Expr::Binary { left: Box::new(left), operator: op, right: Box::new(right) }
    }
}

/// Recursive-descent parser over a token sequence.
pub struct Parser {
    tokens: Vec<Token>,
    current: usize,
}

impl Parser {
    pub closed spec fn tokens(&self) -> Seq<Token> {
        self.tokens@
    }

    pub fn new(tokens: Vec<Token>) -> (r: Parser)
        ensures
            r.tokens() == tokens@,
    {
        Parser { tokens, current: 0 }
    }

    /// All statements up to the end marker, or the first syntax error.
    pub fn parse(&mut self) -> (r: Result<Vec<Stmt>, InterpErr>)
        requires
            tokens_wf(old(self).tokens()),
        ensures
            match r {
                Ok(v) => parse_tokens(old(self).tokens()) == Ok::<Seq<Stmt>, InterpErr>(v@),
                Err(e) => parse_tokens(old(self).tokens()) == Err::<Seq<Stmt>, InterpErr>(e),
            },
    {
        let mut statements: Vec<Stmt> = Vec::new();
        self.current = 0;
        while !matches!(self.tokens[self.current].kind, TokenKind::Eof)
            invariant
                tokens_wf(self.tokens@),
                self.tokens@ == old(self).tokens@,
                self.current < self.tokens@.len(),
                p_program(self.tokens@, self.current as int, statements@) == parse_tokens(
                    self.tokens@,
                ),
            decreases self.tokens@.len() - self.current,
        {
            match self.declaration(self.current, false) {
                Ok((s, q)) => {
                    statements.push(s);
                    self.current = q;
                },
                Err(e) => {
                    return Err(e);
                },
            }
        }
        Ok(statements)
    }

    fn err_at(&self, p: usize, msg: SyntaxMsg) -> (r: InterpErr)
        requires
            p < self.tokens@.len(),
        ensures
            r == err_at(self.tokens@, p as int, msg),
    {
        InterpErr::SyntaxError {
            line: self.tokens[p].line,
            msg,
            place: self.tokens[p].lexeme.clone(),
        }
    }

    fn is_kind(&self, p: usize, what: Expected) -> (r: bool)
        requires
            p < self.tokens@.len(),
        ensures
            r == kind_is(kind_at(self.tokens@, p as int), what),
    {
        let k = &self.tokens[p].kind;
        match what {
            Expected::Semicolon => matches!(k, TokenKind::Semicolon),
            Expected::LeftParen => matches!(k, TokenKind::LeftParen),
            Expected::RightParen => matches!(k, TokenKind::RightParen),
            Expected::LeftBrace => matches!(k, TokenKind::LeftBrace),
            Expected::RightBrace => matches!(k, TokenKind::RightBrace),
            Expected::Identifier => matches!(k, TokenKind::Identifier),
            Expected::Expression => false,
        }
    }

    fn is_level_op(&self, p: usize, level: usize) -> (r: bool)
        requires
            p < self.tokens@.len(),
        ensures
            r == level_op(kind_at(self.tokens@, p as int), level as nat),
    {
        let k = &self.tokens[p].kind;
        if level <= 1 {
            matches!(k, TokenKind::Slash | TokenKind::Star)
        } else if level == 2 {
            matches!(k, TokenKind::Minus | TokenKind::Plus)
        } else if level == 3 {
            matches!(k, TokenKind::Greater | TokenKind::GreaterEqual | TokenKind::Less | TokenKind::LessEqual)
        } else if level == 4 {
            matches!(k, TokenKind::BangEqual | TokenKind::EqualEqual)
        } else if level == 5 {
            matches!(k, TokenKind::And)
        } else {
            matches!(k, TokenKind::Or)
        }
    }

    fn primary(&self, p: usize) -> (r: Result<(Expr, usize), InterpErr>)
        requires
            tokens_wf(self.tokens@),
            p < self.tokens@.len(),
        ensures
            lift(r) == p_primary(self.tokens@, p as int),
            advanced(r, p, self.tokens@.len()),
        decreases self.tokens@.len() - p, 0nat,
    {
        let t = &self.tokens[p];
        match &t.kind {
            TokenKind::False => Ok((Expr::Lit(Literal::Bool(false)), p + 1)),
            TokenKind::True => Ok((Expr::Lit(Literal::Bool(true)), p + 1)),
            TokenKind::Null => Ok((Expr::Lit(Literal::Null), p + 1)),
            TokenKind::Number(n) => Ok((Expr::Lit(Literal::Number(*n)), p + 1)),
            TokenKind::String(s) => Ok((Expr::Lit(Literal::Str(s.clone())), p + 1)),
            TokenKind::Identifier => Ok((Expr::Var(t.copy()), p + 1)),
            TokenKind::LeftParen => match self.expression(p + 1) {
                Ok((e, q)) => {
                    if self.is_kind(q, Expected::RightParen) {
                        Ok((Expr::Grouping(Box::new(e)), q + 1))
                    } else {
                        Err(self.err_at(q, SyntaxMsg::Expected(Expected::RightParen)))
                    }
                },
                Err(e) => Err(e),
            },
            _ => Err(self.err_at(p, SyntaxMsg::Expected(Expected::Expression))),
        }
    }

    /// Arguments of a call from `p`, `n` of them already read.
    fn finish_call(&self, p: usize, n: usize) -> (r: Result<(List<Expr>, usize), InterpErr>)
        requires
            tokens_wf(self.tokens@),
            p < self.tokens@.len(),
            n <= MAX_ARGS,
        ensures
            lift(r) == p_args(self.tokens@, p as int, n as nat),
            advanced(r, p, self.tokens@.len()),
        decreases self.tokens@.len() - p, 18nat,
    {
        if n >= MAX_ARGS {
            return Err(self.err_at(p, SyntaxMsg::TooManyArguments));
        }
        match self.expression(p) {
            Ok((e, q)) => {
                if matches!(self.tokens[q].kind, TokenKind::Comma) {
                    match self.finish_call(q + 1, n + 1) {
                        Ok((rest, q2)) => Ok((List::Cons(Box::new(e), Box::new(rest)), q2)),
                        Err(err) => Err(err),
                    }
                } else {
                    Ok((List::Cons(Box::new(e), Box::new(List::Nil)), q))
                }
            },
            Err(err) => Err(err),
        }
    }

    fn call_tail(&self, p: usize, callee: Expr) -> (r: Result<(Expr, usize), InterpErr>)
        requires
            tokens_wf(self.tokens@),
            p < self.tokens@.len(),
        ensures
            lift(r) == p_call_tail(self.tokens@, p as int, callee),
            r matches Ok((_, q)) ==> p <= q < self.tokens@.len(),
        decreases self.tokens@.len() - p, 1nat,
    {
        if matches!(self.tokens[p].kind, TokenKind::LeftParen) {
            let args = if matches!(self.tokens[p + 1].kind, TokenKind::RightParen) {
                Ok((List::Nil, p + 1))
            } else {
                self.finish_call(p + 1, 0)
            };
            match args {
                Ok((args, q)) => {
                    if self.is_kind(q, Expected::RightParen) {
                        let paren = self.tokens[q].copy();
                        self.call_tail(q + 1, Expr::Call { callee: Box::new(callee), paren, args })
                    } else {
                        Err(self.err_at(q, SyntaxMsg::Expected(Expected::RightParen)))
                    }
                },
                Err(e) => Err(e),
            }
        } else {
            Ok((callee, p))
        }
    }

    fn call(&self, p: usize) -> (r: Result<(Expr, usize), InterpErr>)
        requires
            tokens_wf(self.tokens@),
            p < self.tokens@.len(),
        ensures
            lift(r) == p_call(self.tokens@, p as int),
            advanced(r, p, self.tokens@.len()),
        decreases self.tokens@.len() - p, 2nat,
    {
        match self.primary(p) {
            Ok((e, q)) => self.call_tail(q, e),
            Err(e) => Err(e),
        }
    }

    fn unary(&self, p: usize) -> (r: Result<(Expr, usize), InterpErr>)
        requires
            tokens_wf(self.tokens@),
            p < self.tokens@.len(),
        ensures
            lift(r) == p_unary(self.tokens@, p as int),
            advanced(r, p, self.tokens@.len()),
        decreases self.tokens@.len() - p, 3nat,
    {
        if matches!(self.tokens[p].kind, TokenKind::Bang | TokenKind::Minus) {
            match self.unary(p + 1) {
                Ok((right, q)) => {
                    let operator = self.tokens[p].copy();
                    Ok((Expr::Unary { operator, right: Box::new(right) }, q))
                },
                Err(e) => Err(e),
            }
        } else {
            self.call(p)
        }
    }

    fn binary_tail(&self, p: usize, level: usize, left: Expr) -> (r: Result<(Expr, usize), InterpErr>)
        requires
            tokens_wf(self.tokens@),
            p < self.tokens@.len(),
            1 <= level <= 6,
        ensures
            lift(r) == p_binary_tail(self.tokens@, p as int, level as nat, left),
            r matches Ok((_, q)) ==> p <= q < self.tokens@.len(),
        decreases self.tokens@.len() - p, 2 * level + 3,
    {
        if self.is_level_op(p, level) {
            let right = if level <= 1 {
                self.unary(p + 1)
            } else {
                self.binary(p + 1, level - 1)
            };
            match right {
                Ok((r, q)) => {
                    let op = self.tokens[p].copy();
                    self.binary_tail(q, level, combine_exec(level, left, op, r))
                },
                Err(e) => Err(e),
            }
        } else {
            Ok((left, p))
        }
    }

    /// One binary level: 1 factor, 2 term, 3 comparison, 4 equality,
    /// 5 `and`, 6 `or`.
    fn binary(&self, p: usize, level: usize) -> (r: Result<(Expr, usize), InterpErr>)
        requires
            tokens_wf(self.tokens@),
            p < self.tokens@.len(),
            1 <= level <= 6,
        ensures
            lift(r) == p_binary(self.tokens@, p as int, level as nat),
            advanced(r, p, self.tokens@.len()),
        decreases self.tokens@.len() - p, 2 * level + 4,
    {
        let first = if level <= 1 {
            self.unary(p)
        } else {
            self.binary(p, level - 1)
        };
        match first {
            Ok((l, q)) => self.binary_tail(q, level, l),
            Err(e) => Err(e),
        }
    }

    fn expression(&self, p: usize) -> (r: Result<(Expr, usize), InterpErr>)
        requires
            tokens_wf(self.tokens@),
            p < self.tokens@.len(),
        ensures
            lift(r) == p_expression(self.tokens@, p as int),
            advanced(r, p, self.tokens@.len()),
        decreases self.tokens@.len() - p, 17nat,
    {
        match self.binary(p, 6) {
            Ok((e, q)) => {
                if matches!(self.tokens[q].kind, TokenKind::Equal) {
                    match self.expression(q + 1) {
                        Ok((v, q2)) => match e {
                            Expr::Var(name) => Ok((Expr::Assign { ident: name, value: Box::new(v) }, q2)),
                            _ => Err(self.err_at(q, SyntaxMsg::InvalidAssignmentTarget)),
                        },
                        Err(err) => Err(err),
                    }
                } else {
                    Ok((e, q))
                }
            },
            Err(err) => Err(err),
        }
    }

    fn semi_after(&self, p: usize, s: Stmt) -> (r: Result<(Stmt, usize), InterpErr>)
        requires
            tokens_wf(self.tokens@),
            p < self.tokens@.len(),
        ensures
            lift(r) == semi_after(self.tokens@, p as int, s),
            advanced(r, p, self.tokens@.len()),
    {
        if self.is_kind(p, Expected::Semicolon) {
            Ok((s, p + 1))
        } else {
            Err(self.err_at(p, SyntaxMsg::Expected(Expected::Semicolon)))
        }
    }

    fn expr_statement(&self, p: usize) -> (r: Result<(Stmt, usize), InterpErr>)
        requires
            tokens_wf(self.tokens@),
            p < self.tokens@.len(),
        ensures
            lift(r) == p_expr_stmt(self.tokens@, p as int),
            advanced(r, p, self.tokens@.len()),
        decreases self.tokens@.len() - p, 19nat,
    {
        match self.expression(p) {
            Ok((e, q)) => self.semi_after(q, Stmt::ExprStmt(e)),
            Err(e) => Err(e),
        }
    }

    fn print_statement(&self, p: usize) -> (r: Result<(Stmt, usize), InterpErr>)
        requires
            tokens_wf(self.tokens@),
            p < self.tokens@.len(),
        ensures
            lift(r) == p_print(self.tokens@, p as int),
            advanced(r, p, self.tokens@.len()),
        decreases self.tokens@.len() - p, 19nat,
    {
        match self.expression(p) {
            Ok((e, q)) => self.semi_after(q, Stmt::PrintStmt(e)),
            Err(e) => Err(e),
        }
    }

    fn let_declaration(&self, p: usize) -> (r: Result<(Stmt, usize), InterpErr>)
        requires
            tokens_wf(self.tokens@),
            p < self.tokens@.len(),
        ensures
            lift(r) == p_let(self.tokens@, p as int),
            advanced(r, p, self.tokens@.len()),
        decreases self.tokens@.len() - p, 19nat,
    {
        if !self.is_kind(p, Expected::Identifier) {
            return Err(self.err_at(p, SyntaxMsg::Expected(Expected::Identifier)));
        }
        let ident = self.tokens[p].copy();
        if matches!(self.tokens[p + 1].kind, TokenKind::Equal) {
            match self.expression(p + 2) {
                Ok((e, q)) => self.semi_after(q, Stmt::LetStmt { ident, initializer: Some(e) }),
                Err(e) => Err(e),
            }
        } else {
            self.semi_after(p + 1, Stmt::LetStmt { ident, initializer: None })
        }
    }

    fn return_statement(&self, p: usize) -> (r: Result<(Stmt, usize), InterpErr>)
        requires
            tokens_wf(self.tokens@),
            0 < p < self.tokens@.len(),
        ensures
            lift(r) == p_return(self.tokens@, p as int),
            advanced(r, p, self.tokens@.len()),
        decreases self.tokens@.len() - p, 19nat,
    {
        let keyword = self.tokens[p - 1].copy();
        if matches!(self.tokens[p].kind, TokenKind::Semicolon) {
            Ok((Stmt::ReturnStmt { keyword, value: None }, p + 1))
        } else {
            match self.expression(p) {
                Ok((e, q)) => self.semi_after(q, Stmt::ReturnStmt { keyword, value: Some(e) }),
                Err(e) => Err(e),
            }
        }
    }

    fn condition(&self, p: usize) -> (r: Result<(Expr, usize), InterpErr>)
        requires
            tokens_wf(self.tokens@),
            p < self.tokens@.len(),
        ensures
            lift(r) == p_condition(self.tokens@, p as int),
            advanced(r, p, self.tokens@.len()),
        decreases self.tokens@.len() - p, 19nat,
    {
        if !self.is_kind(p, Expected::LeftParen) {
            return Err(self.err_at(p, SyntaxMsg::Expected(Expected::LeftParen)));
        }
        match self.expression(p + 1) {
            Ok((c, q)) => {
                if self.is_kind(q, Expected::RightParen) {
                    Ok((c, q + 1))
                } else {
                    Err(self.err_at(q, SyntaxMsg::Expected(Expected::RightParen)))
                }
            },
            Err(e) => Err(e),
        }
    }

    fn if_statement(&self, p: usize, in_fn: bool) -> (r: Result<(Stmt, usize), InterpErr>)
        requires
            tokens_wf(self.tokens@),
            p < self.tokens@.len(),
        ensures
            lift(r) == p_if(self.tokens@, p as int, in_fn),
            advanced(r, p, self.tokens@.len()),
        decreases self.tokens@.len() - p, 20nat,
    {
        let (condition, q) = match self.condition(p) {
            Ok(x) => x,
            Err(e) => {
                return Err(e);
            },
        };
        let (if_branch, q2) = match self.statement(q, in_fn) {
            Ok(x) => x,
            Err(e) => {
                return Err(e);
            },
        };
        if matches!(self.tokens[q2].kind, TokenKind::Else) {
            match self.statement(q2 + 1, in_fn) {
                Ok((else_b, q3)) => Ok(
                    (
                        Stmt::IfStmt {
                            condition,
                            if_branch: Box::new(if_branch),
                            else_branch: Some(Box::new(else_b)),
                        },
                        q3,
                    ),
                ),
                Err(e) => Err(e),
            }
        } else {
            Ok((Stmt::IfStmt { condition, if_branch: Box::new(if_branch), else_branch: None }, q2))
        }
    }

    fn while_statement(&self, p: usize, in_fn: bool) -> (r: Result<(Stmt, usize), InterpErr>)
        requires
            tokens_wf(self.tokens@),
            0 < p < self.tokens@.len(),
        ensures
            lift(r) == p_while(self.tokens@, p as int, in_fn),
            advanced(r, p, self.tokens@.len()),
        decreases self.tokens@.len() - p, 20nat,
    {
        match self.condition(p) {
            Ok((condition, q)) => match self.statement(q, in_fn) {
                Ok((body, q2)) => {
                    let site = self.tokens[p - 1].copy();
                    Ok((Stmt::WhileStmt { site, condition, body: Box::new(body) }, q2))
                },
                Err(e) => Err(e),
            },
            Err(e) => Err(e),
        }
    }

    fn for_increment(&self, p: usize, init: Option<Stmt>, cond: Option<Expr>, in_fn: bool) -> (r: Result<
        (Stmt, usize),
        InterpErr,
    >)
        requires
            tokens_wf(self.tokens@),
            p < self.tokens@.len(),
        ensures
            lift(r) == p_for_inc(self.tokens@, p as int, init, cond, in_fn),
            advanced(r, p, self.tokens@.len()),
        decreases self.tokens@.len() - p, 20nat,
    {
        let (inc, q) = if matches!(self.tokens[p].kind, TokenKind::RightParen) {
            (None, p)
        } else {
            match self.expression(p) {
                Ok((x, q)) => (Some(x), q),
                Err(e) => {
                    return Err(e);
                },
            }
        };
        if !self.is_kind(q, Expected::RightParen) {
            return Err(self.err_at(q, SyntaxMsg::Expected(Expected::RightParen)));
        }
        match self.statement(q + 1, in_fn) {
            Ok((body, q2)) => {
                let body = match inc {
                    Some(x) => Stmt::Block(
                        List::Cons(
                            Box::new(body),
                            Box::new(List::Cons(Box::new(Stmt::ExprStmt(x)), Box::new(List::Nil))),
                        ),
                    ),
                    None => body,
                };
                let condition = match cond {
                    Some(c) => c,
                    None => Expr::Lit(Literal::Bool(true)),
                };
                let site = self.tokens[q].copy();
                let w = Stmt::WhileStmt { site, condition, body: Box::new(body) };
                let s = match init {
                    Some(i) => Stmt::Block(
                        List::Cons(
                            Box::new(i),
                            Box::new(List::Cons(Box::new(w), Box::new(List::Nil))),
                        ),
                    ),
                    None => w,
                };
                Ok((s, q2))
            },
            Err(e) => Err(e),
        }
    }

    fn for_condition(&self, p: usize, init: Option<Stmt>, in_fn: bool) -> (r: Result<(Stmt, usize), InterpErr>)
        requires
            tokens_wf(self.tokens@),
            p < self.tokens@.len(),
        ensures
            lift(r) == p_for_cond(self.tokens@, p as int, init, in_fn),
            advanced(r, p, self.tokens@.len()),
        decreases self.tokens@.len() - p, 21nat,
    {
        let (cond, q) = if matches!(self.tokens[p].kind, TokenKind::Semicolon) {
            (None, p)
        } else {
            match self.expression(p) {
                Ok((c, q)) => (Some(c), q),
                Err(e) => {
                    return Err(e);
                },
            }
        };
        if !self.is_kind(q, Expected::Semicolon) {
            return Err(self.err_at(q, SyntaxMsg::Expected(Expected::Semicolon)));
        }
        self.for_increment(q + 1, init, cond, in_fn)
    }

    /// A for statement after `for`, desugared into a while loop.
    fn for_statement(&self, p: usize, in_fn: bool) -> (r: Result<(Stmt, usize), InterpErr>)
        requires
            tokens_wf(self.tokens@),
            p < self.tokens@.len(),
        ensures
            lift(r) == p_for(self.tokens@, p as int, in_fn),
            advanced(r, p, self.tokens@.len()),
        decreases self.tokens@.len() - p, 22nat,
    {
        if !self.is_kind(p, Expected::LeftParen) {
            return Err(self.err_at(p, SyntaxMsg::Expected(Expected::LeftParen)));
        }
        if matches!(self.tokens[p + 1].kind, TokenKind::Semicolon) {
            return self.for_condition(p + 2, None, in_fn);
        }
        let init = if matches!(self.tokens[p + 1].kind, TokenKind::Let) {
            self.let_declaration(p + 2)
        } else {
            self.expr_statement(p + 1)
        };
        match init {
            Ok((i, q)) => self.for_condition(q, Some(i), in_fn),
            Err(e) => Err(e),
        }
    }

    fn params(&self, p: usize, n: usize) -> (r: Result<(List<Token>, usize), InterpErr>)
        requires
            tokens_wf(self.tokens@),
            p < self.tokens@.len(),
            n <= MAX_ARGS,
        ensures
            lift(r) == p_params(self.tokens@, p as int, n as nat),
            advanced(r, p, self.tokens@.len()),
        decreases self.tokens@.len() - p,
    {
        if n >= MAX_ARGS {
            return Err(self.err_at(p, SyntaxMsg::TooManyParameters));
        }
        if !self.is_kind(p, Expected::Identifier) {
            return Err(self.err_at(p, SyntaxMsg::Expected(Expected::Identifier)));
        }
        let name = self.tokens[p].copy();
        if matches!(self.tokens[p + 1].kind, TokenKind::Comma) {
            match self.params(p + 2, n + 1) {
                Ok((rest, q)) => Ok((List::Cons(Box::new(name), Box::new(rest)), q)),
                Err(e) => Err(e),
            }
        } else {
            Ok((List::Cons(Box::new(name), Box::new(List::Nil)), p + 1))
        }
    }

    fn fn_statement(&self, p: usize) -> (r: Result<(Stmt, usize), InterpErr>)
        requires
            tokens_wf(self.tokens@),
            p < self.tokens@.len(),
        ensures
            lift(r) == p_fn(self.tokens@, p as int),
            advanced(r, p, self.tokens@.len()),
        decreases self.tokens@.len() - p, 20nat,
    {
        if !self.is_kind(p, Expected::Identifier) {
            return Err(self.err_at(p, SyntaxMsg::Expected(Expected::Identifier)));
        }
        if !self.is_kind(p + 1, Expected::LeftParen) {
            return Err(self.err_at(p + 1, SyntaxMsg::Expected(Expected::LeftParen)));
        }
        let (params, q) = if matches!(self.tokens[p + 2].kind, TokenKind::RightParen) {
            (List::Nil, p + 2)
        } else {
            match self.params(p + 2, 0) {
                Ok(x) => x,
                Err(e) => {
                    return Err(e);
                },
            }
        };
        if !self.is_kind(q, Expected::RightParen) {
            return Err(self.err_at(q, SyntaxMsg::Expected(Expected::RightParen)));
        }
        if !self.is_kind(q + 1, Expected::LeftBrace) {
            return Err(self.err_at(q + 1, SyntaxMsg::Expected(Expected::LeftBrace)));
        }
        match self.block(q + 2, true) {
            Ok((body, q2)) => {
                let ident = self.tokens[p].copy();
                Ok((Stmt::FnStmt(FnStmt::new(ident, params, body)), q2))
            },
            Err(e) => Err(e),
        }
    }

    /// The declarations of a block up to and including its `}`.
    fn block(&self, p: usize, in_fn: bool) -> (r: Result<(List<Stmt>, usize), InterpErr>)
        requires
            tokens_wf(self.tokens@),
            p < self.tokens@.len(),
        ensures
            lift(r) == p_block_rest(self.tokens@, p as int, in_fn),
            advanced(r, p, self.tokens@.len()),
        decreases self.tokens@.len() - p, 25nat,
    {
        if matches!(self.tokens[p].kind, TokenKind::RightBrace) {
            return Ok((List::Nil, p + 1));
        }
        if matches!(self.tokens[p].kind, TokenKind::Eof) {
            return Err(self.err_at(p, SyntaxMsg::Expected(Expected::RightBrace)));
        }
        match self.declaration(p, in_fn) {
            Ok((s, q)) => match self.block(q, in_fn) {
                Ok((rest, q2)) => Ok((List::Cons(Box::new(s), Box::new(rest)), q2)),
                Err(e) => Err(e),
            },
            Err(e) => Err(e),
        }
    }

    fn statement(&self, p: usize, in_fn: bool) -> (r: Result<(Stmt, usize), InterpErr>)
        requires
            tokens_wf(self.tokens@),
            p < self.tokens@.len(),
        ensures
            lift(r) == p_statement(self.tokens@, p as int, in_fn),
            advanced(r, p, self.tokens@.len()),
        decreases self.tokens@.len() - p, 23nat,
    {
        match &self.tokens[p].kind {
            TokenKind::Print => self.print_statement(p + 1),
            TokenKind::LeftBrace => match self.block(p + 1, in_fn) {
                Ok((l, q)) => Ok((Stmt::Block(l), q)),
                Err(e) => Err(e),
            },
            TokenKind::If => self.if_statement(p + 1, in_fn),
            TokenKind::While => self.while_statement(p + 1, in_fn),
            TokenKind::For => self.for_statement(p + 1, in_fn),
            TokenKind::Fn => self.fn_statement(p + 1),
            TokenKind::Return => {
                if in_fn {
                    self.return_statement(p + 1)
                } else {
                    Err(self.err_at(p, SyntaxMsg::ReturnOutsideFunction))
                }
            },
            _ => self.expr_statement(p),
        }
    }

    fn declaration(&self, p: usize, in_fn: bool) -> (r: Result<(Stmt, usize), InterpErr>)
        requires
            tokens_wf(self.tokens@),
            p < self.tokens@.len(),
        ensures
            lift(r) == p_declaration(self.tokens@, p as int, in_fn),
            advanced(r, p, self.tokens@.len()),
        decreases self.tokens@.len() - p, 24nat,
    {
        if matches!(self.tokens[p].kind, TokenKind::Let) {
            self.let_declaration(p + 1)
        } else {
            self.statement(p, in_fn)
        }
    }
}

} // verus!
