//! The parser of the schema language.

pub mod error;
pub mod laws;
pub mod parser_impl;
pub mod progress;
pub mod syntax;
