//! The front end of a schema language: from the text of a schema file to the
//! schema that it declares.
//!
//! [`lexer`] turns text into tokens with their positions, [`parser`] turns
//! tokens into a [`descriptor::FileDescriptor`], which holds the imports of
//! a file and its [`model::Schema`]. [`hashing`] gives each service of a
//! schema its compatibility hash, and [`resolver`] keeps track of the files
//! that a file imports. What each of them returns is stated in the contract
//! of its functions, over the views of the types involved.

pub mod codegen;
pub mod convert;
pub mod descriptor;
pub mod errors;
pub mod format;
pub mod hashing;
pub mod lexer;
pub mod messages;
pub mod model;
pub mod parser;
pub mod resolver;
pub mod text;

pub use crate::descriptor::{FileDescriptor, Import, ImportVis};
pub use crate::hashing::{seal, seal_with, MIDL_PARSER_VERSION};
pub use crate::parser::error::{ParserError, ParserErrorWithLocation};
pub use crate::parser::parser_impl::{parse_string, Parser};
pub use crate::parser::syntax::Occurrence;
