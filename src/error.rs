use vstd::prelude::*;

verus! {

/// What a parse expected and did not find.
#[derive(Clone, Copy, PartialEq, Eq, Structural, Debug)]
pub enum Expected {
    Expression,
    Identifier,
    Semicolon,
    LeftParen,
    RightParen,
    LeftBrace,
    RightBrace,
}

/// Why source text was rejected before it ran.
#[derive(Clone, Copy, PartialEq, Eq, Structural, Debug)]
pub enum SyntaxMsg {
    UnexpectedCharacter,
    UnterminatedString,
    Expected(Expected),
    InvalidAssignmentTarget,
    TooManyArguments,
    TooManyParameters,
    ReturnOutsideFunction,
}

/// Why a running program stopped.
#[derive(Debug)]
pub enum RuntimeMsg {
    UndefinedVariable(String),
    OperandMustBeNumber,
    OperandsMustBeNumbers,
    OperandsMustBeStringsOrNumbers,
    NotCallable,
    InvalidOperator,
    Arity { expected: usize, got: usize },
    StepLimit,
}

/// The two failures the core reports to its caller.
#[derive(Debug)]
pub enum InterpErr {
    SyntaxError { line: usize, msg: SyntaxMsg, place: String },
    RuntimeError { line: usize, msg: RuntimeMsg },
}

/// A syntax error with its offending text as characters.
pub ghost struct SyntaxErrV {
    pub line: nat,
    pub msg: SyntaxMsg,
    pub place: Seq<char>,
}

impl InterpErr {
    pub open spec fn syntax_view(&self) -> SyntaxErrV {
        match self {
            InterpErr::SyntaxError { line, msg, place } => SyntaxErrV {
                line: *line as nat,
                msg: *msg,
                place: place@,
            },
            InterpErr::RuntimeError { line, .. } => SyntaxErrV {
                line: *line as nat,
                msg: SyntaxMsg::UnexpectedCharacter,
                place: Seq::empty(),
            },
        }
    }
}

} // verus!
