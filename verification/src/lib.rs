//! Lexical and expression-parsing front end for a small Lua-like language.
//!
//! The scanner turns a byte buffer into a stream of classified tokens, one
//! token of lookahead at a time; the parser consumes that stream with a
//! precedence-climbing algorithm. Every scanning and parsing step is specified
//! against a mathematical model of the source bytes.

pub mod srcpos;
pub mod text;
pub mod keyword;
pub mod operator;
pub mod separator;
pub mod token;
pub mod error;
pub mod grammar;
pub mod scanner;
pub mod parser;
pub mod laws;
