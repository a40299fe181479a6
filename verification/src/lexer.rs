//! Lexing of schema source text: characters to tokens with source positions.

pub mod chars;
pub mod float;
pub mod grammar;
pub mod ints;
pub mod lexer_impl;
pub mod loc;
pub mod scan;
pub mod str_lit;
pub mod token;
pub mod tokenizer;
