//! A small Lisp interpreter: a tokenizer, a recursive-descent parser and a
//! tree-walking evaluator over a chain of lexical environment frames.
//!
//! Every component is specified against a mathematical model: expressions are
//! mirrored by the ghost type [`objects::ObjV`], the environment chain by a
//! sequence of ghost frames, and evaluation itself by the ghost interpreter in
//! [`semantics`]. The executable interpreter is proved to agree with that
//! model on every input, and [`laws`] proves the language's general
//! properties — exact arithmetic, one-branch `if`, literal `quote`, `atom`
//! classification, and frame isolation — once and for all inputs.

pub mod env;
pub mod eval;
pub mod laws;
pub mod lexer;
pub mod objects;
pub mod parser;
pub mod semantics;
