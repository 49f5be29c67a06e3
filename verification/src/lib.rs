//! The front end of a compiler, as far as it reads characters: a hand-written
//! scanner that turns a text into tokens, and the string table in which it
//! interns the text of identifiers and literals.
//!
//! - [`char_util`] classifies single characters.
//! - [`token`] is the token model.
//! - [`string_table`] and [`compile_context`] hold the interned texts of one
//!   compilation unit.
//! - [`grammar`] states which token starts where in a text, and [`laws`]
//!   proves what holds of every text.
//! - [`lexer`] is the scanner, proved to yield what the grammar says.
//! - [`token_stream`] is the interface of a source of tokens.

pub mod char_util;
pub mod compile_context;
pub mod grammar;
pub mod laws;
pub mod lexer;
pub mod string_table;
pub mod token;
pub mod token_stream;
