// A tree-walking interpreter for a small dynamically typed language: a
// scanner, a recursive-descent parser and an evaluator over chained scopes,
// each proved against a specification of what it computes.
pub mod ast;
pub mod ast_printer;
pub mod env;
pub mod error;
pub mod interpreter;
pub mod laws;
pub mod location;
pub mod number;
pub mod parser;
pub mod pipeline;
pub mod scanner;
pub mod text;
pub mod token;
pub mod value;
