//! A small expression-language front end: a lexer for four-operator integer
//! arithmetic with parentheses, a recursive-descent parser building a binary
//! abstract syntax tree with conventional precedence, and an exact evaluator
//! over rational values.
//!
//! The pipeline is `tokenize` (text to tokens), `parse` (tokens to tree),
//! `evaluate` (tree to number). Each stage is pure and all-or-nothing: on
//! failure it reports a structured error and the caller decides what to do.

pub mod ast;
pub mod eval;
pub mod lexer;
pub mod parser;
pub mod semantics;
pub mod token;

use vstd::prelude::*;

verus! {

} // verus!
