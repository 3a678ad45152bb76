//! A small compiler from a C-like language to x86-64 assembly text: a
//! lexer, a parser for statements and precedence-climbing expressions, the
//! syntax tree and its debug rendering, a per-function slot table, and a
//! stack-machine code generator. Each stage is stated by spec functions:
//! the token sequence, the shape of the tree, and the output line by line.
use vstd::prelude::*;

pub mod ast;
pub mod codegen;
pub mod env;
pub mod lexer;
pub mod parser;
pub mod render;
pub mod text;
pub mod token;

verus! {

} // verus!
