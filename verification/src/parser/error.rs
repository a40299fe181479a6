//! The errors of the parser.

use vstd::prelude::*;
use crate::lexer::token::{LexerError, StrLitDecodeError};
use crate::lexer::tokenizer::{TokenizerError, TokenizerErrorView};

verus! {

/// Why a schema could not be parsed.
#[derive(Debug, PartialEq, Eq)]
pub enum ParserError {
    /// The tokenizer could not hand out what the grammar asks for
    TokenizerError(TokenizerError),
    /// A token stands where no statement starts, or where a number is needed
    IncorrectInput,
    /// Text is not UTF-8
    NotUtf8,
    /// A constant is needed
    ExpectConstant,
    /// The syntax of the file is not known
    UnknownSyntax,
    /// A number does not fit its type
    IntegerOverflow,
    /// A label stands where none is allowed
    LabelNotAllowed,
    /// A label is needed
    LabelRequired,
    /// The name of a group starts with a lower case letter
    GroupNameShouldStartWithUpperCase,
    /// A string literal does not decode
    StrLitDecodeError(StrLitDecodeError),
    /// A token is not the literal that is needed
    LexerError(LexerError),
    /// The key type of a map is neither an integer type nor `String`
    MapKeyType,
    /// A field is both `repeated` and an array
    RepeatedArray,
    /// Attributes stand where no declaration follows them
    DanglingAttributes,
    /// Two fields of a message have this number
    DuplicateFieldNumber(u32),
    /// The file has no `package` statement
    MissingPackage,
    /// The schema could not be serialized
    Serialization(String),
    /// The serialized forms that were handed in do not fit the schema
    InternalHash(String),
    /// The file has more than one `package` statement
    OnlyOnePackage,
}

/// What a [`ParserError`] is, over mathematical strings.
pub enum ParserErrorView {
    TokenizerError(TokenizerErrorView),
    IncorrectInput,
    NotUtf8,
    ExpectConstant,
    UnknownSyntax,
    IntegerOverflow,
    LabelNotAllowed,
    LabelRequired,
    GroupNameShouldStartWithUpperCase,
    StrLitDecodeError(StrLitDecodeError),
    LexerError(LexerError),
    MapKeyType,
    RepeatedArray,
    DanglingAttributes,
    DuplicateFieldNumber(u32),
    MissingPackage,
    Serialization(Seq<char>),
    InternalHash(Seq<char>),
    OnlyOnePackage,
}

impl View for ParserError {
    type V = ParserErrorView;

    open spec fn view(&self) -> ParserErrorView {
        match self {
            ParserError::TokenizerError(e) => ParserErrorView::TokenizerError(e@),
            ParserError::IncorrectInput => ParserErrorView::IncorrectInput,
            ParserError::NotUtf8 => ParserErrorView::NotUtf8,
            ParserError::ExpectConstant => ParserErrorView::ExpectConstant,
            ParserError::UnknownSyntax => ParserErrorView::UnknownSyntax,
            ParserError::IntegerOverflow => ParserErrorView::IntegerOverflow,
            ParserError::LabelNotAllowed => ParserErrorView::LabelNotAllowed,
            ParserError::LabelRequired => ParserErrorView::LabelRequired,
            ParserError::GroupNameShouldStartWithUpperCase => {
                ParserErrorView::GroupNameShouldStartWithUpperCase
            },
            ParserError::StrLitDecodeError(e) => ParserErrorView::StrLitDecodeError(*e),
            ParserError::LexerError(e) => ParserErrorView::LexerError(*e),
            ParserError::MapKeyType => ParserErrorView::MapKeyType,
            ParserError::RepeatedArray => ParserErrorView::RepeatedArray,
            ParserError::DanglingAttributes => ParserErrorView::DanglingAttributes,
            ParserError::DuplicateFieldNumber(n) => ParserErrorView::DuplicateFieldNumber(*n),
            ParserError::MissingPackage => ParserErrorView::MissingPackage,
            ParserError::Serialization(s) => ParserErrorView::Serialization(s@),
            ParserError::InternalHash(s) => ParserErrorView::InternalHash(s@),
            ParserError::OnlyOnePackage => ParserErrorView::OnlyOnePackage,
        }
    }
}

/// A parse error with the position at which the parser stood.
#[derive(Debug)]
pub struct ParserErrorWithLocation {
    pub error: ParserError,
    /// 1-based
    pub line: u32,
    /// 1-based
    pub col: u32,
}

/// What the parser found, or why it could not.
pub type ParserResult<T> = Result<T, ParserError>;

} // verus!
