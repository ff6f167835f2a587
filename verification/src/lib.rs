//! Front end for a small, dynamically-typed, C-family scripting language.
//!
//! The crate has two stages: a lexical analyzer ([`lexer::Lexer`]) that turns
//! raw source text into a stream of classified tokens, and a recursive-descent
//! parser ([`parser::Parser`]) that consumes that stream with two tokens of
//! lookahead and builds an abstract syntax tree ([`ast::Program`]), collecting
//! syntax errors and resynchronizing at statement boundaries as it goes.
#![verifier::loop_isolation(false)]

pub mod ast;
pub mod lexer;
pub mod parser;
pub mod token;
