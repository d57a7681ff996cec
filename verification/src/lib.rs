//! A small dynamically typed expression language: scanner, parser and
//! evaluator, with the behaviour of each stated as a contract.

pub mod chars;
pub mod input_stream;
pub mod text;
pub mod token;
pub mod token_stream;
pub mod expr;
pub mod number;
pub mod env;
pub mod l_value;
pub mod interpreter;
pub mod parser;
pub mod laws;
pub mod parse_laws;
pub mod prelude;
