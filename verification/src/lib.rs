//! A tree-walking interpreter for a small expression-oriented language:
//! a lexer, a Pratt parser, and an evaluator over lexically scoped
//! environments, each verified against a mathematical model.

pub mod text;
pub mod token;
pub mod lexer;
pub mod ast;
pub mod object;
pub mod environment;
pub mod evaluator;
pub mod parser;
pub mod repl;
