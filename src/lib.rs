//! Text front-end for a layout description language: a tokenizer, a
//! precedence-climbing parser that builds a syntax tree, and an interpreter
//! that turns the tree and a list of argument layouts into one layout.
use vstd::prelude::*;

pub mod dsl;
pub mod error;
pub mod interp;
pub mod laws;
pub mod layout;
pub mod lexer;
pub mod parser;
pub mod syntax;
pub mod token;

verus! {

} // verus!
