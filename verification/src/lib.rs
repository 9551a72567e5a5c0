//! A tree-walking interpreter for a small dynamically typed scripting
//! language: scanner, recursive-descent parser, syntax trees, scoped
//! environments and an evaluator.
//!
//! Numbers are IEEE-754 binary64 values. This crate never computes with
//! them as floats: a number is carried as its 64-bit pattern, ordered and
//! compared on that pattern, and every sum, difference, product, quotient,
//! numeral conversion and clock reading is requested from the host that
//! drives the [`interpreter::Interpreter`].

pub mod ast_printer;
pub mod char_extensions;
pub mod environment;
pub mod error;
pub mod evaluation;
pub mod expression;
pub mod fragment;
pub mod grammar;
pub mod grammar_laws;
pub mod interpreter;
pub mod lexing;
pub mod machine;
pub mod object;
pub mod operators;
pub mod parser;
pub mod returner;
pub mod round_trip;
pub mod scanner;
pub mod statement;
pub mod string_extensions;
pub mod token;
pub mod value;
