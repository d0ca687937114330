//! Front end of a small strongly-typed functional language: a lexer, a
//! backtracking recursive-descent parser and a scope-checking semantic
//! analyzer, with machine-checked contracts.

pub mod ast;
pub mod error;
pub mod lexer;
pub mod parser;
pub mod semantics;
