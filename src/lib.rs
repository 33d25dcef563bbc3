pub mod ast;
pub mod env;
pub mod error;
pub mod interp;
pub mod laws;
pub mod lexer;
pub mod number;
pub mod parser;
pub mod semantics;
mod text;
pub mod token;
pub mod value;
