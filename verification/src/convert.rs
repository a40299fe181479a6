//! Conversions between the types of the library.

use vstd::prelude::*;
use vstd::std_specs::cmp::PartialEqSpecImpl;
use vstd::std_specs::convert::FromSpecImpl;
use crate::lexer::ints::Overflow;
use crate::lexer::token::{LexerError, StrLitDecodeError};
use crate::lexer::tokenizer::TokenizerError;
use crate::model::{ident_display, ident_of, Constant, Ident};
use crate::text::str_eq;
use crate::parser::error::ParserError;

verus! {

impl From<LexerError> for TokenizerError {
    fn from(e: LexerError) -> (r: Self) {
        TokenizerError::LexerError(e)
    }
}

impl FromSpecImpl<LexerError> for TokenizerError {
    open spec fn obeys_from_spec() -> bool {
        true
    }

    open spec fn from_spec(e: LexerError) -> Self {
        TokenizerError::LexerError(e)
    }
}

impl From<StrLitDecodeError> for TokenizerError {
    fn from(e: StrLitDecodeError) -> (r: Self) {
        TokenizerError::StrLitDecodeError(e)
    }
}

impl FromSpecImpl<StrLitDecodeError> for TokenizerError {
    open spec fn obeys_from_spec() -> bool {
        true
    }

    open spec fn from_spec(e: StrLitDecodeError) -> Self {
        TokenizerError::StrLitDecodeError(e)
    }
}

impl From<TokenizerError> for ParserError {
    fn from(e: TokenizerError) -> (r: Self) {
        ParserError::TokenizerError(e)
    }
}

impl FromSpecImpl<TokenizerError> for ParserError {
    open spec fn obeys_from_spec() -> bool {
        true
    }

    open spec fn from_spec(e: TokenizerError) -> Self {
        ParserError::TokenizerError(e)
    }
}

impl From<StrLitDecodeError> for ParserError {
    fn from(e: StrLitDecodeError) -> (r: Self) {
        ParserError::StrLitDecodeError(e)
    }
}

impl FromSpecImpl<StrLitDecodeError> for ParserError {
    open spec fn obeys_from_spec() -> bool {
        true
    }

    open spec fn from_spec(e: StrLitDecodeError) -> Self {
        ParserError::StrLitDecodeError(e)
    }
}

impl From<LexerError> for ParserError {
    fn from(e: LexerError) -> (r: Self) {
        ParserError::LexerError(e)
    }
}

impl FromSpecImpl<LexerError> for ParserError {
    open spec fn obeys_from_spec() -> bool {
        true
    }

    open spec fn from_spec(e: LexerError) -> Self {
        ParserError::LexerError(e)
    }
}

impl From<Overflow> for ParserError {
    fn from(e: Overflow) -> (r: Self) {
        ParserError::IntegerOverflow
    }
}

impl FromSpecImpl<Overflow> for ParserError {
    open spec fn obeys_from_spec() -> bool {
        true
    }

    open spec fn from_spec(e: Overflow) -> Self {
        ParserError::IntegerOverflow
    }
}

impl From<LexerError> for StrLitDecodeError {
    fn from(e: LexerError) -> (r: Self) {
        StrLitDecodeError::OtherError
    }
}

impl FromSpecImpl<LexerError> for StrLitDecodeError {
    open spec fn obeys_from_spec() -> bool {
        true
    }

    open spec fn from_spec(e: LexerError) -> Self {
        StrLitDecodeError::OtherError
    }
}

impl From<String> for Constant {
    fn from(s: String) -> (r: Self) {
        Constant::String(s)
    }
}

impl FromSpecImpl<String> for Constant {
    open spec fn obeys_from_spec() -> bool {
        true
    }

    open spec fn from_spec(s: String) -> Self {
        Constant::String(s)
    }
}

impl From<Vec<u8>> for Constant {
    fn from(v: Vec<u8>) -> (r: Self) {
        Constant::Bytes(v)
    }
}

impl FromSpecImpl<Vec<u8>> for Constant {
    open spec fn obeys_from_spec() -> bool {
        true
    }

    open spec fn from_spec(v: Vec<u8>) -> Self {
        Constant::Bytes(v)
    }
}

impl From<u64> for Constant {
    fn from(val: u64) -> (r: Self) {
        Constant::U64(val)
    }
}

impl FromSpecImpl<u64> for Constant {
    open spec fn obeys_from_spec() -> bool {
        true
    }

    open spec fn from_spec(val: u64) -> Self {
        Constant::U64(val)
    }
}

impl From<u32> for Constant {
    fn from(val: u32) -> (r: Self) {
        Constant::U64(val as u64)
    }
}

impl FromSpecImpl<u32> for Constant {
    open spec fn obeys_from_spec() -> bool {
        true
    }

    open spec fn from_spec(val: u32) -> Self {
        Constant::U64(val as u64)
    }
}

impl From<i64> for Constant {
    fn from(val: i64) -> (r: Self) {
        Constant::I64(val)
    }
}

impl FromSpecImpl<i64> for Constant {
    open spec fn obeys_from_spec() -> bool {
        true
    }

    open spec fn from_spec(val: i64) -> Self {
        Constant::I64(val)
    }
}

impl From<i32> for Constant {
    fn from(val: i32) -> (r: Self) {
        Constant::I64(val as i64)
    }
}

impl FromSpecImpl<i32> for Constant {
    open spec fn obeys_from_spec() -> bool {
        true
    }

    open spec fn from_spec(val: i32) -> Self {
        Constant::I64(val as i64)
    }
}

impl From<&str> for Constant {
    fn from(s: &str) -> (r: Self)
        ensures
            r@ == crate::model::ConstantView::String(s@),
    {
        Constant::String(s.to_string())
    }
}

impl FromSpecImpl<&str> for Constant {
    open spec fn obeys_from_spec() -> bool {
        false
    }

    open spec fn from_spec(s: &str) -> Self {
        arbitrary()
    }
}

impl From<String> for Ident {
    fn from(s: String) -> (r: Self)
        ensures
            r@ == ident_of(s@),
    {
        Ident::new(s.as_str())
    }
}

impl FromSpecImpl<String> for Ident {
    open spec fn obeys_from_spec() -> bool {
        false
    }

    open spec fn from_spec(s: String) -> Self {
        arbitrary()
    }
}

impl From<&str> for Ident {
    fn from(s: &str) -> (r: Self)
        ensures
            r@ == ident_of(s@),
    {
        Ident::new(s)
    }
}

impl FromSpecImpl<&str> for Ident {
    open spec fn obeys_from_spec() -> bool {
        false
    }

    open spec fn from_spec(s: &str) -> Self {
        arbitrary()
    }
}

impl PartialEq<str> for Ident {
    fn eq(&self, other: &str) -> (r: bool) {
        str_eq(self.display().as_str(), other)
    }
}

impl PartialEqSpecImpl<str> for Ident {
    open spec fn obeys_eq_spec() -> bool {
        true
    }

    open spec fn eq_spec(&self, other: &str) -> bool {
        ident_display(self@) == other@
    }
}

impl PartialEq<&str> for Ident {
    fn eq(&self, other: &&str) -> (r: bool) {
        str_eq(self.display().as_str(), *other)
    }
}

impl PartialEqSpecImpl<&str> for Ident {
    open spec fn obeys_eq_spec() -> bool {
        true
    }

    open spec fn eq_spec(&self, other: &&str) -> bool {
        ident_display(self@) == other@
    }
}

impl PartialEq<String> for Ident {
    fn eq(&self, other: &String) -> (r: bool) {
        str_eq(self.display().as_str(), other.as_str())
    }
}

impl PartialEqSpecImpl<String> for Ident {
    open spec fn obeys_eq_spec() -> bool {
        true
    }

    open spec fn eq_spec(&self, other: &String) -> bool {
        ident_display(self@) == other@
    }
}

} // verus!
