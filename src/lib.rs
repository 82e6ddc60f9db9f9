//! Front end of a small expression language: a lexer that turns source text
//! into positioned tokens, and an evaluator that interprets a syntax tree
//! against an environment of bindings and host-provided native functions.
pub mod eval;
pub mod lexer;
pub mod text;
pub mod token;
