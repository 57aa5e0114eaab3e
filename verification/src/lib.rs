//! A tree-walking interpreter for the Monkey language: a lexer, a Pratt
//! parser and an evaluator over lexically scoped environments.

pub mod text;
pub mod token;
pub mod lexer;
pub mod ast;
pub mod object;
pub mod environment;
pub mod semantics;
pub mod evaluator;
pub mod grammar;
pub mod parser;
pub mod repl;
pub mod renaming;
pub mod progress;
