//! Tokens and the errors of the lexer.

use vstd::prelude::*;
use crate::lexer::loc::Loc;

verus! {

/// Which comments the lexer skips.
#[derive(Debug, Clone, Copy, PartialEq, Eq, Structural)]
pub enum ParserLanguage {
    /// Schema source: `// ...` to the end of the line and `/* ... */`
    Proto,
    /// Text format: `# ...` to the end of the line
    TextFormat,
}

/// Why the lexer could not read a token, or the decoder a string literal.
#[derive(Debug, Clone, Copy, PartialEq, Eq, Structural)]
pub enum LexerError {
    /// A character that starts no token, a raw line feed or NUL inside a string
    /// literal, or an escape whose value does not fit a byte
    IncorrectInput,
    /// The input ended inside a string literal, an escape or a block comment
    UnexpectedEof,
    /// An integer literal without digits, with a digit outside its base, or
    /// whose value does not fit 64 bits
    ParseIntError,
    /// `\x` without two hexadecimal digits behind it
    ExpectHexDigit,
}

/// Why a string literal could not be decoded.
#[derive(Debug, Clone, Copy, PartialEq, Eq, Structural)]
pub enum StrLitDecodeError {
    /// The decoded bytes are not UTF-8
    FromUtf8Error,
    /// The literal holds a malformed escape
    OtherError,
}

/// A string literal as written, without its quotes and with its escapes untouched.
#[derive(Debug, PartialEq, Eq)]
pub struct StrLit {
    /// The text between the quotes
    pub escaped: String,
}

impl View for StrLit {
    type V = Seq<char>;

    open spec fn view(&self) -> Seq<char> {
        self.escaped@
    }
}

impl Clone for StrLit {
    fn clone(&self) -> (r: Self)
        ensures
            r@ == self@,
    {
        StrLit { escaped: self.escaped.clone() }
    }
}

/// A token of the schema language.
#[derive(Debug, PartialEq, Eq)]
pub enum Token {
    /// An identifier
    Ident(String),
    /// A single punctuation character
    Symbol(char),
    /// An integer literal; tokens carry no sign
    IntLit(u64),
    /// A floating-point literal, kept as written: digits with a fraction or an
    /// exponent, or one of the words `inf` and `nan`
    FloatLit(String),
    /// A string literal
    StrLit(StrLit),
    /// `::`, which separates path components as `.` does
    DoubleColon,
    /// `->`, which introduces a return type as `returns` does
    FnReturns,
}

/// What a [`Token`] is, over mathematical strings.
pub enum TokenView {
    Ident(Seq<char>),
    Symbol(char),
    IntLit(u64),
    FloatLit(Seq<char>),
    StrLit(Seq<char>),
    DoubleColon,
    FnReturns,
}

impl View for Token {
    type V = TokenView;

    open spec fn view(&self) -> TokenView {
        match self {
            Token::Ident(s) => TokenView::Ident(s@),
            Token::Symbol(c) => TokenView::Symbol(*c),
            Token::IntLit(i) => TokenView::IntLit(*i),
            Token::FloatLit(s) => TokenView::FloatLit(s@),
            Token::StrLit(s) => TokenView::StrLit(s@),
            Token::DoubleColon => TokenView::DoubleColon,
            Token::FnReturns => TokenView::FnReturns,
        }
    }
}

impl Clone for Token {
    fn clone(&self) -> (r: Self)
        ensures
            r@ == self@,
    {
        match self {
            Token::Ident(s) => Token::Ident(s.clone()),
            Token::Symbol(c) => Token::Symbol(*c),
            Token::IntLit(i) => Token::IntLit(*i),
            Token::FloatLit(s) => Token::FloatLit(s.clone()),
            Token::StrLit(s) => Token::StrLit(s.clone()),
            Token::DoubleColon => Token::DoubleColon,
            Token::FnReturns => Token::FnReturns,
        }
    }
}

/// A numeric literal: an integer, or a floating-point literal as written.
#[derive(Debug, PartialEq, Eq)]
pub enum NumLit {
    U64(u64),
    F64(String),
}

/// What a [`NumLit`] is, over mathematical strings.
pub enum NumLitView {
    U64(u64),
    F64(Seq<char>),
}

impl View for NumLit {
    type V = NumLitView;

    open spec fn view(&self) -> NumLitView {
        match self {
            NumLit::U64(u) => NumLitView::U64(*u),
            NumLit::F64(s) => NumLitView::F64(s@),
        }
    }
}

/// The numeric literal that a token is, if it is one.
pub open spec fn token_num_lit(t: TokenView) -> Result<NumLitView, LexerError> {
    match t {
        TokenView::IntLit(i) => Ok(NumLitView::U64(i)),
        TokenView::FloatLit(f) => Ok(NumLitView::F64(f)),
        _ => Err(LexerError::IncorrectInput),
    }
}

impl Token {
    /// The numeric literal that this token is; `IncorrectInput` for any other token.
    pub fn to_num_lit(&self) -> (r: Result<NumLit, LexerError>)
        ensures
            match r {
                Ok(n) => token_num_lit(self@) == Ok::<NumLitView, LexerError>(n@),
                Err(e) => token_num_lit(self@) == Err::<NumLitView, LexerError>(e),
            },
    {
        match self {
            Token::IntLit(i) => Ok(NumLit::U64(*i)),
            Token::FloatLit(f) => Ok(NumLit::F64(f.clone())),
            _ => Err(LexerError::IncorrectInput),
        }
    }
}

/// A token and the position of its first character.
#[derive(Debug, PartialEq, Eq)]
pub struct TokenWithLocation {
    pub token: Token,
    pub loc: Loc,
}

impl Clone for TokenWithLocation {
    fn clone(&self) -> (r: Self)
        ensures
            r.token@ == self.token@,
            r.loc == self.loc,
    {
        TokenWithLocation { token: self.token.clone(), loc: self.loc }
    }
}

} // verus!
