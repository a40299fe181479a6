//! The texts of positions and errors, as they are shown to a person.

use vstd::prelude::*;
use crate::format::{decimal, push_decimal};
use crate::lexer::loc::Loc;
use crate::lexer::token::{LexerError, StrLitDecodeError};
use crate::lexer::tokenizer::{TokenizerError, TokenizerErrorView};
use crate::parser::error::{ParserError, ParserErrorView, ParserErrorWithLocation};

verus! {

/// A position as `line:col`.
pub open spec fn loc_text(loc: Loc) -> Seq<char> {
    decimal(loc.line as nat) + seq![':'] + decimal(loc.col as nat)
}

/// The text of an error of the lexer.
pub open spec fn lexer_error_text(e: LexerError) -> Seq<char> {
    match e {
        LexerError::IncorrectInput => "Incorrect input"@,
        LexerError::UnexpectedEof => "Unexpected EOF"@,
        LexerError::ParseIntError => "Parse int error"@,
        LexerError::ExpectHexDigit => "Expecting hex digit"@,
    }
}

/// The text of an error of the string literal decoder.
pub open spec fn decode_error_text(e: StrLitDecodeError) -> Seq<char> {
    match e {
        StrLitDecodeError::FromUtf8Error => "invalid utf-8 sequence"@,
        StrLitDecodeError::OtherError => "String literal decode error"@,
    }
}

/// The characters of `chars`, separated by a comma and a space.
pub open spec fn comma_separated(chars: Seq<char>) -> Seq<char>
    decreases chars.len(),
{
    if chars.len() == 0 {
        seq![]
    } else if chars.len() == 1 {
        seq![chars[0]]
    } else {
        comma_separated(chars.drop_last()) + seq![',', ' '] + seq![chars.last()]
    }
}

/// The text of an error of the tokenizer.
pub open spec fn tokenizer_error_text(e: TokenizerErrorView) -> Seq<char> {
    match e {
        TokenizerErrorView::LexerError(e) => lexer_error_text(e),
        TokenizerErrorView::StrLitDecodeError(e) => decode_error_text(e),
        TokenizerErrorView::InternalError => "Internal tokenizer error"@,
        TokenizerErrorView::IncorrectInput => "Incorrect input"@,
        TokenizerErrorView::UnexpectedEof => "Unexpected EOF"@,
        TokenizerErrorView::ExpectStrLit => "Expecting string literal"@,
        TokenizerErrorView::ExpectIntLit => "Expecting int literal"@,
        TokenizerErrorView::ExpectFloatLit => "Expecting float literal"@,
        TokenizerErrorView::ExpectIdent => "Expecting identifier"@,
        TokenizerErrorView::ExpectNamedIdent(n) => "Expecting identifier "@ + n,
        TokenizerErrorView::ExpectChar(c) => "Expecting char "@ + seq![c],
        TokenizerErrorView::ExpectAnyChar(c) => "Expecting one of: "@ + comma_separated(c),
    }
}

/// The text of an error of the parser.
pub open spec fn parser_error_text(e: ParserErrorView) -> Seq<char> {
    match e {
        ParserErrorView::TokenizerError(e) => tokenizer_error_text(e),
        ParserErrorView::IncorrectInput => "incorrect input"@,
        ParserErrorView::NotUtf8 => "not UTF-8"@,
        ParserErrorView::ExpectConstant => "expecting a constant"@,
        ParserErrorView::UnknownSyntax => "unknown syntax"@,
        ParserErrorView::IntegerOverflow => "integer overflow"@,
        ParserErrorView::LabelNotAllowed => "label not allowed"@,
        ParserErrorView::LabelRequired => "label required"@,
        ParserErrorView::RepeatedArray => "use 'repeated' or array[], but not both"@,
        ParserErrorView::MapKeyType => {
            "unsupported map key type: must be an integer type or string"@
        },
        ParserErrorView::GroupNameShouldStartWithUpperCase => {
            "group name should start with upper case"@
        },
        ParserErrorView::StrLitDecodeError(e) => "string literal decode error: "@
            + decode_error_text(e),
        ParserErrorView::LexerError(e) => "lexer error: "@ + lexer_error_text(e),
        ParserErrorView::DanglingAttributes => {
            "'@' attributes defined without applicable type or service"@
        },
        ParserErrorView::DuplicateFieldNumber(n) => "duplicate field number ("@ + decimal(n as nat)
            + seq![')'],
        ParserErrorView::MissingPackage => "missing required 'package' statement"@,
        ParserErrorView::InternalHash(s) => "internal hash error "@ + s,
        ParserErrorView::Serialization(s) => "serialization error: "@ + s,
        ParserErrorView::OnlyOnePackage => {
            "Only one package declaration is allowed per midl file"@
        },
    }
}

/// The text of a parse error with its position: `at line:col: error`.
pub open spec fn located_error_text(e: ParserErrorView, line: u32, col: u32) -> Seq<char> {
    "at "@ + loc_text(Loc { line, col }) + seq![':', ' '] + parser_error_text(e)
}

impl Loc {
    /// The position as `line:col`.
    pub fn to_text(&self) -> (r: String)
        ensures
            r@ == loc_text(*self),
    {
        let mut out = String::new();
        push_decimal(&mut out, self.line as u64);
        out.push(':');
        push_decimal(&mut out, self.col as u64);
        assert(out@ =~= loc_text(*self));
        out
    }
}

impl LexerError {
    /// The text of the error.
    pub fn to_text(&self) -> (r: String)
        ensures
            r@ == lexer_error_text(*self),
    {
        match self {
            LexerError::IncorrectInput => "Incorrect input".to_string(),
            LexerError::UnexpectedEof => "Unexpected EOF".to_string(),
            LexerError::ParseIntError => "Parse int error".to_string(),
            LexerError::ExpectHexDigit => "Expecting hex digit".to_string(),
        }
    }
}

impl StrLitDecodeError {
    /// The text of the error.
    pub fn to_text(&self) -> (r: String)
        ensures
            r@ == decode_error_text(*self),
    {
        match self {
            StrLitDecodeError::FromUtf8Error => "invalid utf-8 sequence".to_string(),
            StrLitDecodeError::OtherError => "String literal decode error".to_string(),
        }
    }
}

/// `prefix` followed by `rest`.
fn joined(prefix: &str, rest: &str) -> (r: String)
    ensures
        r@ == prefix@ + rest@,
{
    let mut out = prefix.to_string();
    out.append(rest);
    out
}

/// Appends the characters of `chars`, separated by a comma and a space, to `out`.
fn push_comma_separated(out: &mut String, chars: &Vec<char>)
    ensures
        final(out)@ == old(out)@ + comma_separated(chars@),
{
    let mut i: usize = 0;
    assert(chars@.subrange(0, 0) =~= seq![]);
    assert(out@ =~= old(out)@ + comma_separated(chars@.subrange(0, 0)));
    while i < chars.len()
        invariant
            0 <= i <= chars@.len(),
            out@ == old(out)@ + comma_separated(chars@.subrange(0, i as int)),
        decreases chars@.len() - i,
    {
        let ghost before = out@;
        if i > 0 {
            out.push(',');
            out.push(' ');
        }
        out.push(chars[i]);
        proof {
            let next = chars@.subrange(0, i + 1);
            assert(next.drop_last() =~= chars@.subrange(0, i as int));
            assert(next.last() == chars@[i as int]);
            if i > 0 {
                assert(out@ =~= before + seq![',', ' '] + seq![chars@[i as int]]);
                assert(out@ =~= old(out)@ + comma_separated(next));
            } else {
                assert(comma_separated(chars@.subrange(0, 0)) =~= seq![]);
                assert(out@ =~= old(out)@ + comma_separated(next));
            }
        }
        i = i + 1;
    }
    assert(chars@.subrange(0, chars@.len() as int) =~= chars@);
}

impl TokenizerError {
    /// The text of the error.
    pub fn to_text(&self) -> (r: String)
        ensures
            r@ == tokenizer_error_text(self@),
    {
        match self {
            TokenizerError::LexerError(e) => e.to_text(),
            TokenizerError::StrLitDecodeError(e) => e.to_text(),
            TokenizerError::InternalError => "Internal tokenizer error".to_string(),
            TokenizerError::IncorrectInput => "Incorrect input".to_string(),
            TokenizerError::UnexpectedEof => "Unexpected EOF".to_string(),
            TokenizerError::ExpectStrLit => "Expecting string literal".to_string(),
            TokenizerError::ExpectIntLit => "Expecting int literal".to_string(),
            TokenizerError::ExpectFloatLit => "Expecting float literal".to_string(),
            TokenizerError::ExpectIdent => "Expecting identifier".to_string(),
            TokenizerError::ExpectNamedIdent(n) => joined("Expecting identifier ", n.as_str()),
            TokenizerError::ExpectChar(c) => {
                let mut out = "Expecting char ".to_string();
                out.push(*c);
                assert(out@ =~= "Expecting char "@ + seq![*c]);
                out
            },
            TokenizerError::ExpectAnyChar(c) => {
                let mut out = "Expecting one of: ".to_string();
                push_comma_separated(&mut out, c);
                out
            },
        }
    }
}

impl ParserError {
    /// The text of the error.
    pub fn to_text(&self) -> (r: String)
        ensures
            r@ == parser_error_text(self@),
    {
        match self {
            ParserError::TokenizerError(e) => e.to_text(),
            ParserError::IncorrectInput => "incorrect input".to_string(),
            ParserError::NotUtf8 => "not UTF-8".to_string(),
            ParserError::ExpectConstant => "expecting a constant".to_string(),
            ParserError::UnknownSyntax => "unknown syntax".to_string(),
            ParserError::IntegerOverflow => "integer overflow".to_string(),
            ParserError::LabelNotAllowed => "label not allowed".to_string(),
            ParserError::LabelRequired => "label required".to_string(),
            ParserError::RepeatedArray => "use 'repeated' or array[], but not both".to_string(),
            ParserError::MapKeyType => {
                "unsupported map key type: must be an integer type or string".to_string()
            },
            ParserError::GroupNameShouldStartWithUpperCase => {
                "group name should start with upper case".to_string()
            },
            ParserError::StrLitDecodeError(e) => joined(
                "string literal decode error: ",
                e.to_text().as_str(),
            ),
            ParserError::LexerError(e) => joined("lexer error: ", e.to_text().as_str()),
            ParserError::DanglingAttributes => {
                "'@' attributes defined without applicable type or service".to_string()
            },
            ParserError::DuplicateFieldNumber(n) => {
                let mut out = "duplicate field number (".to_string();
                push_decimal(&mut out, *n as u64);
                out.push(')');
                assert(out@ =~= "duplicate field number ("@ + decimal(*n as nat) + seq![')']);
                out
            },
            ParserError::MissingPackage => "missing required 'package' statement".to_string(),
            ParserError::InternalHash(s) => joined("internal hash error ", s.as_str()),
            ParserError::Serialization(s) => joined("serialization error: ", s.as_str()),
            ParserError::OnlyOnePackage => {
                "Only one package declaration is allowed per midl file".to_string()
            },
        }
    }
}

impl ParserErrorWithLocation {
    /// The text of the error with its position: `at line:col: error`.
    pub fn to_text(&self) -> (r: String)
        ensures
            r@ == located_error_text(self.error@, self.line, self.col),
    {
        let mut out = "at ".to_string();
        let loc = Loc { line: self.line, col: self.col };
        out.append(loc.to_text().as_str());
        out.push(':');
        out.push(' ');
        out.append(self.error.to_text().as_str());
        assert(out@ =~= located_error_text(self.error@, self.line, self.col));
        out
    }
}

} // verus!
