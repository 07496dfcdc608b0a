//! A small scripting-language pipeline: a scanner that turns source text into
//! tokens, a recursive-descent parser that builds an expression/statement tree,
//! and a tree-walking evaluator over a dynamically typed value model.
//!
//! Each stage carries a full functional specification: the scanner, parser and
//! evaluator are proved equal to mathematical models of themselves, so the
//! contracts on the public entry points pin down exactly which tokens, trees,
//! values and error messages come out of every run.

pub mod error;
pub mod interpreter;
pub mod parser;
pub mod scanner;
pub mod expr;
pub mod strutil;
pub mod token;
