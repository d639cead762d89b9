//! Semantic core of a small expression-oriented language: lexical scope
//! construction and name resolution, structural type inference with
//! branch unification for `if`, and code generation that linearizes
//! expression-valued constructs into imperative, C-like statements.

pub mod ast;
pub mod codegen;
pub mod errors;
pub mod infer;
pub mod laws;
pub mod names;
pub mod resolve;
pub mod scope;
