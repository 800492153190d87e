//! A verified core of the UCG configuration language: the tokenizer, the
//! grammar and the syntax tree, the precedence parser for operator
//! expressions, and the value-level rules of the build stage.
use vstd::prelude::*;

pub mod ast;
pub mod build;
pub mod convert;
pub mod error;
pub mod parse;
pub mod symbols;
pub mod text;

verus! {

} // verus!
