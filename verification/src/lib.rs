//! A small interpreter front-end for a C-like language of declarations,
//! expressions and functions: a tokenizer, a precedence-climbing parser, the
//! tree it builds with its traversal protocol, and a tree-walking evaluator.
//!
//! Every stage is stated as a mathematical function of its input (the
//! characters, the tokens, the tree) and the executable code is proved to
//! compute that function.

pub mod ast;
pub mod diagnostics;
pub mod interpreter;
pub mod text;
