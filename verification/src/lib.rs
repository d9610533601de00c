//! A verified tree-walking interpreter for a small line-oriented scripting
//! language: each physical source line is one statement, control moves only
//! through explicit line-number jumps, and values are dynamically typed with
//! total coercions and overflow-safe numeric promotion.

pub mod ast;
pub mod errors;
pub mod eval;
pub mod fp;
pub mod laws;
pub mod lexer;
pub mod parser;
pub mod text;
pub mod token;
