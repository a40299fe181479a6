//! The tokenizer: the tokens of a text behind a cursor with one token of lookahead.

use vstd::prelude::*;
use crate::lexer::grammar::{lex, TokenStream};
use crate::lexer::lexer_impl::{lex_all, token_locs, token_views, Lexed};
use crate::lexer::loc::{loc_start, Loc};
use crate::lexer::token::{LexerError, ParserLanguage, StrLit, StrLitDecodeError, Token, TokenView};
use crate::text::str_eq;

verus! {

/// Why the tokenizer could not hand out what was asked for.
#[derive(Debug, PartialEq, Eq)]
pub enum TokenizerError {
    /// The text is malformed where the next token would start
    LexerError(LexerError),
    /// A string literal does not decode
    StrLitDecodeError(StrLitDecodeError),
    /// A token was to be consumed that had not been looked at
    InternalError,
    /// A token stands where it must not
    IncorrectInput,
    /// The text ends where a token is needed
    UnexpectedEof,
    /// A string literal is needed
    ExpectStrLit,
    /// An integer literal is needed
    ExpectIntLit,
    /// A floating-point literal is needed
    ExpectFloatLit,
    /// An identifier is needed
    ExpectIdent,
    /// This identifier is needed
    ExpectNamedIdent(String),
    /// This symbol is needed
    ExpectChar(char),
    /// One of these symbols is needed
    ExpectAnyChar(Vec<char>),
}

/// What a [`TokenizerError`] is, over mathematical strings.
pub enum TokenizerErrorView {
    LexerError(LexerError),
    StrLitDecodeError(StrLitDecodeError),
    InternalError,
    IncorrectInput,
    UnexpectedEof,
    ExpectStrLit,
    ExpectIntLit,
    ExpectFloatLit,
    ExpectIdent,
    ExpectNamedIdent(Seq<char>),
    ExpectChar(char),
    ExpectAnyChar(Seq<char>),
}

impl View for TokenizerError {
    type V = TokenizerErrorView;

    open spec fn view(&self) -> TokenizerErrorView {
        match self {
            TokenizerError::LexerError(e) => TokenizerErrorView::LexerError(*e),
            TokenizerError::StrLitDecodeError(e) => TokenizerErrorView::StrLitDecodeError(*e),
            TokenizerError::InternalError => TokenizerErrorView::InternalError,
            TokenizerError::IncorrectInput => TokenizerErrorView::IncorrectInput,
            TokenizerError::UnexpectedEof => TokenizerErrorView::UnexpectedEof,
            TokenizerError::ExpectStrLit => TokenizerErrorView::ExpectStrLit,
            TokenizerError::ExpectIntLit => TokenizerErrorView::ExpectIntLit,
            TokenizerError::ExpectFloatLit => TokenizerErrorView::ExpectFloatLit,
            TokenizerError::ExpectIdent => TokenizerErrorView::ExpectIdent,
            TokenizerError::ExpectNamedIdent(s) => TokenizerErrorView::ExpectNamedIdent(s@),
            TokenizerError::ExpectChar(c) => TokenizerErrorView::ExpectChar(*c),
            TokenizerError::ExpectAnyChar(v) => TokenizerErrorView::ExpectAnyChar(v@),
        }
    }
}

/// What the tokenizer hands out, or why it could not.
pub type TokenizerResult<R> = Result<R, TokenizerError>;

/// The state of a tokenizer: the tokens of its text, how many of them have been
/// consumed, and whether the next one has been looked at.
pub struct TokenizerView {
    /// The tokens of the text
    pub tokens: Seq<TokenView>,
    /// The position of each token
    pub locs: Seq<Loc>,
    /// Why the text could not be read to its end, if so
    pub error: Option<LexerError>,
    /// Where the text ends, or where the malformed token was given up
    pub end: Loc,
    /// How many tokens have been consumed
    pub pos: int,
    /// Whether the tokenizer has looked ahead since it last consumed a token
    pub looked: bool,
}

/// The state of a tokenizer over `stream` of which nothing has been read.
pub open spec fn fresh(stream: TokenStream) -> TokenizerView {
    TokenizerView {
        tokens: stream.tokens,
        locs: stream.locs,
        error: stream.error,
        end: stream.end,
        pos: 0,
        looked: false,
    }
}

/// The next token, if the text has one left; an error where the text is
/// malformed at this point.
pub open spec fn peek(s: TokenizerView) -> Result<Option<TokenView>, TokenizerErrorView> {
    if 0 <= s.pos < s.tokens.len() {
        Ok(Some(s.tokens[s.pos]))
    } else {
        match s.error {
            Some(e) => Err(TokenizerErrorView::LexerError(e)),
            None => Ok(None),
        }
    }
}

/// The state after looking ahead.
pub open spec fn looked(s: TokenizerView) -> TokenizerView {
    TokenizerView { looked: true, ..s }
}

/// The state after consuming the next token.
pub open spec fn consumed(s: TokenizerView) -> TokenizerView {
    TokenizerView { pos: s.pos + 1, looked: false, ..s }
}

/// The position that the tokenizer reports. Once it has looked ahead: the
/// position of the next token, or, where no token is left, of the end of the
/// text. Else the position of the token consumed last. Else, before anything
/// was consumed, where the lexer stands: at the start of the text, or, after
/// a look ahead that found the text malformed, where the malformed token was
/// given up.
pub open spec fn loc_of(s: TokenizerView) -> Loc {
    if s.looked && 0 <= s.pos < s.tokens.len() && s.pos < s.locs.len() {
        s.locs[s.pos]
    } else if s.looked && s.error is None {
        s.end
    } else if 0 < s.pos <= s.locs.len() {
        s.locs[s.pos - 1]
    } else if s.looked {
        s.end
    } else {
        loc_start()
    }
}

/// Whether the state is one of a tokenizer: the cursor is within the tokens,
/// and every token has a position.
pub open spec fn wf(s: TokenizerView) -> bool {
    0 <= s.pos <= s.tokens.len() && s.locs.len() == s.tokens.len()
}

/// Whether `t` is a state of the same text as `s`, not before it.
pub open spec fn follows(s: TokenizerView, t: TokenizerView) -> bool {
    &&& t.tokens == s.tokens
    &&& t.locs == s.locs
    &&& t.error == s.error
    &&& t.end == s.end
    &&& s.pos <= t.pos
    &&& wf(t)
}

/// Whether `t` is a state of the same text as `s`, with more tokens consumed.
pub open spec fn advances(s: TokenizerView, t: TokenizerView) -> bool {
    follows(s, t) && s.pos < t.pos
}

/// The number of tokens that are left.
pub open spec fn remaining(s: TokenizerView) -> int {
    s.tokens.len() - s.pos
}

/// Whether the next token is the identifier `word`.
pub open spec fn next_is_ident(s: TokenizerView, word: Seq<char>) -> bool {
    peek(s) == Ok::<Option<TokenView>, TokenizerErrorView>(Some(TokenView::Ident(word)))
}

/// Whether the next token is the symbol `c`.
pub open spec fn next_is_symbol(s: TokenizerView, c: char) -> bool {
    peek(s) == Ok::<Option<TokenView>, TokenizerErrorView>(Some(TokenView::Symbol(c)))
}

/// Consuming the identifier `word` if it comes next: whether it did, and the
/// state after.
pub open spec fn ident_if_eq(s: TokenizerView, word: Seq<char>) -> (
    Result<bool, TokenizerErrorView>,
    TokenizerView,
) {
    match peek(s) {
        Err(e) => (Err(e), looked(s)),
        Ok(_) => if next_is_ident(s, word) {
            (Ok(true), consumed(s))
        } else {
            (Ok(false), looked(s))
        },
    }
}

/// Consuming the symbol `c` if it comes next: whether it did, and the state after.
pub open spec fn symbol_if_eq(s: TokenizerView, c: char) -> (
    Result<bool, TokenizerErrorView>,
    TokenizerView,
) {
    match peek(s) {
        Err(e) => (Err(e), looked(s)),
        Ok(_) => if next_is_symbol(s, c) {
            (Ok(true), consumed(s))
        } else {
            (Ok(false), looked(s))
        },
    }
}

/// Consuming the symbol `c`, which must come next.
pub open spec fn symbol_expect(s: TokenizerView, c: char) -> (
    Result<(), TokenizerErrorView>,
    TokenizerView,
) {
    match peek(s) {
        Err(e) => (Err(e), looked(s)),
        Ok(_) => if next_is_symbol(s, c) {
            (Ok(()), consumed(s))
        } else {
            (Err(TokenizerErrorView::ExpectChar(c)), looked(s))
        },
    }
}

/// Consuming an identifier, which must come next.
pub open spec fn ident_expect(s: TokenizerView) -> (
    Result<Seq<char>, TokenizerErrorView>,
    TokenizerView,
) {
    match peek(s) {
        Err(e) => (Err(e), looked(s)),
        Ok(None) => (Err(TokenizerErrorView::UnexpectedEof), looked(s)),
        Ok(Some(TokenView::Ident(word))) => (Ok(word), consumed(s)),
        Ok(Some(_)) => (Err(TokenizerErrorView::ExpectIdent), looked(s)),
    }
}

/// Consuming a string literal, which must come next.
pub open spec fn str_lit_expect(s: TokenizerView) -> (
    Result<Seq<char>, TokenizerErrorView>,
    TokenizerView,
) {
    match peek(s) {
        Err(e) => (Err(e), looked(s)),
        Ok(None) => (Err(TokenizerErrorView::UnexpectedEof), looked(s)),
        Ok(Some(TokenView::StrLit(text))) => (Ok(text), consumed(s)),
        Ok(Some(_)) => (Err(TokenizerErrorView::ExpectStrLit), looked(s)),
    }
}

/// A cursor of a tokenizer: how many tokens were consumed, and whether the
/// next one had been looked at.
#[derive(Debug, Clone, Copy, PartialEq, Eq, Structural)]
pub struct Mark {
    pub pos: usize,
    pub looked: bool,
}

/// A tokenizer over one text.
pub struct Tokenizer {
    lexed: Lexed,
    pos: usize,
    looked: bool,
}

impl View for Tokenizer {
    type V = TokenizerView;

    closed spec fn view(&self) -> TokenizerView {
        TokenizerView {
            tokens: token_views(self.lexed.tokens@),
            locs: token_locs(self.lexed.tokens@),
            error: self.lexed.error,
            end: self.lexed.end,
            pos: self.pos as int,
            looked: self.looked,
        }
    }
}

impl Clone for Tokenizer {
    fn clone(&self) -> (r: Self)
        ensures
            r@ == self@,
    {
        proof {
            use_type_invariant(self);
        }
        Tokenizer { lexed: self.lexed.clone(), pos: self.pos, looked: self.looked }
    }
}

impl Tokenizer {
    #[verifier::type_invariant]
    spec fn inv(self) -> bool {
        self.pos <= self.lexed.tokens@.len()
    }

    /// The token that comes next, as the tokenizer holds it.
    pub closed spec fn next_held(&self) -> Token {
        self.lexed.tokens@[self.pos as int].token
    }

    /// A tokenizer at the start of `input`.
    pub fn new(input: &str, comment_style: ParserLanguage) -> (r: Tokenizer)
        ensures
            r@ == fresh(lex(input@, comment_style)),
    {
        Tokenizer { lexed: lex_all(input, comment_style), pos: 0, looked: false }
    }

    /// Does nothing; tells the caller that the state is well formed.
    pub fn well_formed(&self)
        ensures
            wf(self@),
    {
        proof {
            use_type_invariant(self);
        }
    }

    /// The cursor, to come back to with [`Tokenizer::rewind`].
    pub fn mark(&self) -> (r: Mark)
        ensures
            r.pos == self@.pos,
            r.looked == self@.looked,
            wf(self@),
    {
        proof {
            use_type_invariant(self);
        }
        Mark { pos: self.pos, looked: self.looked }
    }

    /// Puts the cursor back to where `mark` was taken.
    pub fn rewind(&mut self, mark: Mark)
        requires
            mark.pos <= old(self)@.tokens.len(),
        ensures
            final(self)@ == (TokenizerView {
                pos: mark.pos as int,
                looked: mark.looked,
                ..old(self)@
            }),
    {
        proof {
            use_type_invariant(&*self);
        }
        self.pos = mark.pos;
        self.looked = mark.looked;
    }

    /// The position of the next token once it has been looked at, else of the
    /// token consumed last, else of the lexer.
    pub fn loc(&self) -> (r: Loc)
        ensures
            r == loc_of(self@),
    {
        proof {
            use_type_invariant(self);
        }
        if self.looked && self.pos < self.lexed.tokens.len() {
            self.lexed.tokens[self.pos].loc
        } else if self.looked && self.lexed.error.is_none() {
            self.lexed.end
        } else if self.pos > 0 {
            self.lexed.tokens[self.pos - 1].loc
        } else if self.looked {
            self.lexed.end
        } else {
            Loc::start()
        }
    }

    /// Looks ahead, then reports the position.
    pub fn lookahead_loc(&mut self) -> (r: Loc)
        ensures
            final(self)@ == looked(old(self)@),
            r == loc_of(looked(old(self)@)),
    {
        proof {
            use_type_invariant(&*self);
        }
        self.looked = true;
        self.loc()
    }

    /// Looks at the next token without consuming it. `Ok(None)` at the end of
    /// the text.
    pub fn lookahead(&mut self) -> (r: TokenizerResult<Option<&Token>>)
        ensures
            final(self)@ == looked(old(self)@),
            match peek(old(self)@) {
                Ok(Some(t)) => r matches Ok(Some(token)) && token@ == t && *token == old(
                    self,
                ).next_held(),
                Ok(None) => r matches Ok(None),
                Err(e) => r matches Err(err) && err@ == e,
            },
    {
        proof {
            use_type_invariant(&*self);
        }
        self.looked = true;
        if self.pos < self.lexed.tokens.len() {
            Ok(Some(&self.lexed.tokens[self.pos].token))
        } else {
            match self.lexed.error {
                Some(e) => Err(TokenizerError::LexerError(e)),
                None => Ok(None),
            }
        }
    }

    /// Looks at the next token, which must exist.
    pub fn lookahead_some(&mut self) -> (r: TokenizerResult<&Token>)
        ensures
            final(self)@ == looked(old(self)@),
            match peek(old(self)@) {
                Ok(Some(t)) => r matches Ok(token) && token@ == t && *token == old(self).next_held(),
                Ok(None) => r matches Err(err) && err@ == TokenizerErrorView::UnexpectedEof,
                Err(e) => r matches Err(err) && err@ == e,
            },
    {
        match self.lookahead() {
            Ok(Some(token)) => Ok(token),
            Ok(None) => Err(TokenizerError::UnexpectedEof),
            Err(e) => Err(e),
        }
    }

    /// Consumes the token that was looked at. It is an error to call this
    /// without looking ahead first, or at the end of the text.
    pub fn advance(&mut self) -> (r: TokenizerResult<Token>)
        ensures
            match r {
                Ok(token) => old(self)@.looked && peek(old(self)@) == Ok::<
                    Option<TokenView>,
                    TokenizerErrorView,
                >(Some(token@)) && final(self)@ == consumed(old(self)@),
                Err(e) => !(old(self)@.looked && peek(old(self)@) matches Ok(Some(_))) && e@
                    == TokenizerErrorView::InternalError && final(self)@ == old(self)@,
            },
    {
        proof {
            use_type_invariant(&*self);
        }
        if self.looked && self.pos < self.lexed.tokens.len() {
            let token = self.lexed.tokens[self.pos].token.clone();
            self.pos = self.pos + 1;
            self.looked = false;
            Ok(token)
        } else {
            Err(TokenizerError::InternalError)
        }
    }

    /// Whether no token is left.
    pub fn syntax_eof(&mut self) -> (r: TokenizerResult<bool>)
        ensures
            final(self)@ == looked(old(self)@),
            match peek(old(self)@) {
                Ok(t) => r matches Ok(b) && b == (t is None),
                Err(e) => r matches Err(err) && err@ == e,
            },
    {
        match self.lookahead() {
            Ok(t) => Ok(t.is_none()),
            Err(e) => Err(e),
        }
    }

    /// Looks ahead, and hands the next token to `p`. Where `p` returns a value
    /// the token is consumed; where it returns `None`, and at the end of the
    /// text, nothing is consumed.
    pub fn next_token_if_map<P, R>(&mut self, p: P) -> (r: TokenizerResult<Option<R>>) where
        P: FnOnce(&Token) -> Option<R>,

        requires
            forall|t: &Token| p.requires((t,)),
        ensures
            match peek(old(self)@) {
                Err(e) => r matches Err(err) && err@ == e && final(self)@ == looked(old(self)@),
                Ok(None) => r matches Ok(None) && final(self)@ == looked(old(self)@),
                Ok(Some(t)) => r matches Ok(out) && old(self).next_held()@ == t && p.ensures(
                    (&old(self).next_held(),),
                    out,
                ) && final(self)@ == (if out is Some {
                    consumed(old(self)@)
                } else {
                    looked(old(self)@)
                }),
            },
    {
        proof {
            use_type_invariant(&*self);
        }
        self.looked = true;
        if self.pos < self.lexed.tokens.len() {
            match p(&self.lexed.tokens[self.pos].token) {
                Some(v) => {
                    self.pos = self.pos + 1;
                    self.looked = false;
                    Ok(Some(v))
                },
                None => Ok(None),
            }
        } else {
            match self.lexed.error {
                Some(e) => Err(TokenizerError::LexerError(e)),
                None => Ok(None),
            }
        }
    }

    /// Looks ahead, and hands the next token, which must exist, to `p`. Where
    /// `p` returns a value the token is consumed; where it fails nothing is.
    pub fn next_token_check_map<P, R, E>(&mut self, p: P) -> (r: Result<R, E>) where
        P: FnOnce(&Token) -> Result<R, E>,
        E: From<TokenizerError>,

        requires
            forall|t: &Token| p.requires((t,)),
        ensures
            match peek(old(self)@) {
                Err(e) => r matches Err(err) && e matches TokenizerErrorView::LexerError(le)
                    && call_ensures(E::from, (TokenizerError::LexerError(le),), err)
                    && final(self)@ == looked(old(self)@),
                Ok(None) => r matches Err(err) && call_ensures(
                    E::from,
                    (TokenizerError::UnexpectedEof,),
                    err,
                ) && final(self)@ == looked(old(self)@),
                Ok(Some(t)) => old(self).next_held()@ == t && p.ensures(
                    (&old(self).next_held(),),
                    r,
                ) && final(self)@ == (if r is Ok {
                    consumed(old(self)@)
                } else {
                    looked(old(self)@)
                }),
            },
    {
        proof {
            use_type_invariant(&*self);
        }
        self.looked = true;
        if self.pos < self.lexed.tokens.len() {
            match p(&self.lexed.tokens[self.pos].token) {
                Ok(v) => {
                    self.pos = self.pos + 1;
                    self.looked = false;
                    Ok(v)
                },
                Err(e) => Err(e),
            }
        } else {
            let te = match self.lexed.error {
                Some(e) => TokenizerError::LexerError(e),
                None => TokenizerError::UnexpectedEof,
            };
            Err(E::from(te))
        }
    }

    /// Looks ahead, and consumes and returns the next token if `p` holds of it.
    pub fn next_token_if<P>(&mut self, p: P) -> (r: TokenizerResult<Option<Token>>) where
        P: FnOnce(&Token) -> bool,

        requires
            forall|t: &Token| p.requires((t,)),
        ensures
            match peek(old(self)@) {
                Err(e) => r matches Err(err) && err@ == e && final(self)@ == looked(old(self)@),
                Ok(None) => r matches Ok(None) && final(self)@ == looked(old(self)@),
                Ok(Some(t)) => r matches Ok(out) && old(self).next_held()@ == t && p.ensures(
                    (&old(self).next_held(),),
                    out is Some,
                ) && (out matches Some(token) ==> token@ == t) && final(self)@ == (if out is Some {
                    consumed(old(self)@)
                } else {
                    looked(old(self)@)
                }),
            },
    {
        proof {
            use_type_invariant(&*self);
        }
        self.looked = true;
        if self.pos < self.lexed.tokens.len() {
            if p(&self.lexed.tokens[self.pos].token) {
                let token = self.lexed.tokens[self.pos].token.clone();
                self.pos = self.pos + 1;
                self.looked = false;
                Ok(Some(token))
            } else {
                Ok(None)
            }
        } else {
            match self.lexed.error {
                Some(e) => Err(TokenizerError::LexerError(e)),
                None => Ok(None),
            }
        }
    }

    /// Consumes the next token if it is an identifier among `idents`, and
    /// returns it.
    pub fn next_ident_if_in(&mut self, idents: &[&str]) -> (r: TokenizerResult<Option<String>>)
        ensures
            match peek(old(self)@) {
                Err(e) => r matches Err(err) && err@ == e && final(self)@ == looked(old(self)@),
                Ok(Some(TokenView::Ident(word))) => if exists|i: int|
                    0 <= i < idents@.len() && (#[trigger] idents@[i])@ == word {
                    r matches Ok(Some(found)) && found@ == word && final(self)@ == consumed(
                        old(self)@,
                    )
                } else {
                    r matches Ok(None) && final(self)@ == looked(old(self)@)
                },
                Ok(_) => r matches Ok(None) && final(self)@ == looked(old(self)@),
            },
    {
        proof {
            use_type_invariant(&*self);
        }
        let found = match self.lookahead() {
            Err(e) => {
                return Err(e);
            },
            Ok(Some(Token::Ident(next))) => {
                let mut i: usize = 0;
                let mut hit = false;
                while i < idents.len() && !hit
                    invariant
                        0 <= i <= idents@.len(),
                        hit ==> exists|k: int|
                            0 <= k < idents@.len() && (#[trigger] idents@[k])@ == next@,
                        !hit ==> forall|k: int| 0 <= k < i ==> (#[trigger] idents@[k])@ != next@,
                    decreases idents@.len() - i + (if hit { 0int } else { 1int }),
                {
                    if str_eq(idents[i], next.as_str()) {
                        hit = true;
                    } else {
                        i = i + 1;
                    }
                }
                hit
            },
            Ok(_) => false,
        };
        if found {
            match self.advance() {
                Ok(Token::Ident(word)) => Ok(Some(word)),
                Ok(_) => Ok(None),
                Err(e) => Err(e),
            }
        } else {
            Ok(None)
        }
    }

    /// Consumes the next token if it is the identifier `word`.
    pub fn next_ident_if_eq(&mut self, word: &str) -> (r: TokenizerResult<bool>)
        ensures
            final(self)@ == ident_if_eq(old(self)@, word@).1,
            match ident_if_eq(old(self)@, word@).0 {
                Ok(b) => r matches Ok(x) && x == b,
                Err(e) => r matches Err(err) && err@ == e,
            },
    {
        let hit = match self.lookahead() {
            Err(e) => {
                return Err(e);
            },
            Ok(Some(Token::Ident(next))) => str_eq(next.as_str(), word),
            Ok(_) => false,
        };
        if hit {
            match self.advance() {
                Ok(_) => Ok(true),
                Err(e) => Err(e),
            }
        } else {
            Ok(false)
        }
    }

    /// Consumes the identifier `word`, which must come next.
    pub fn next_ident_expect_eq(&mut self, word: &str) -> (r: TokenizerResult<()>)
        ensures
            final(self)@ == ident_if_eq(old(self)@, word@).1,
            match ident_if_eq(old(self)@, word@).0 {
                Ok(true) => r matches Ok(_),
                Ok(false) => r matches Err(err) && err@ == TokenizerErrorView::ExpectNamedIdent(
                    word@,
                ),
                Err(e) => r matches Err(err) && err@ == e,
            },
    {
        match self.next_ident_if_eq(word) {
            Ok(true) => Ok(()),
            Ok(false) => Err(TokenizerError::ExpectNamedIdent(word.to_owned())),
            Err(e) => Err(e),
        }
    }

    /// Fails with `IncorrectInput` if the identifier `word` comes next. The
    /// tokenizer is left as it was.
    pub fn next_ident_if_eq_error(&mut self, word: &str) -> (r: TokenizerResult<()>)
        ensures
            final(self)@ == old(self)@,
            match peek(old(self)@) {
                Err(e) => r matches Err(err) && err@ == e,
                Ok(_) => if next_is_ident(old(self)@, word@) {
                    r matches Err(err) && err@ == TokenizerErrorView::IncorrectInput
                } else {
                    r matches Ok(_)
                },
            },
    {
        proof {
            use_type_invariant(&*self);
        }
        if self.pos < self.lexed.tokens.len() {
            match &self.lexed.tokens[self.pos].token {
                Token::Ident(next) => {
                    if str_eq(next.as_str(), word) {
                        Err(TokenizerError::IncorrectInput)
                    } else {
                        Ok(())
                    }
                },
                _ => Ok(()),
            }
        } else {
            match self.lexed.error {
                Some(e) => Err(TokenizerError::LexerError(e)),
                None => Ok(()),
            }
        }
    }

    /// Looks ahead; the next token's character if it is a symbol.
    pub fn lookahead_if_symbol(&mut self) -> (r: TokenizerResult<Option<char>>)
        ensures
            final(self)@ == looked(old(self)@),
            match peek(old(self)@) {
                Err(e) => r matches Err(err) && err@ == e,
                Ok(Some(TokenView::Symbol(c))) => r matches Ok(Some(x)) && x == c,
                Ok(_) => r matches Ok(None),
            },
    {
        match self.lookahead() {
            Err(e) => Err(e),
            Ok(Some(Token::Symbol(c))) => Ok(Some(*c)),
            Ok(_) => Ok(None),
        }
    }

    /// Looks ahead; whether the next token is the symbol `symbol`.
    pub fn lookahead_is_symbol(&mut self, symbol: char) -> (r: TokenizerResult<bool>)
        ensures
            final(self)@ == looked(old(self)@),
            match peek(old(self)@) {
                Err(e) => r matches Err(err) && err@ == e,
                Ok(_) => r matches Ok(b) && b == next_is_symbol(old(self)@, symbol),
            },
    {
        match self.lookahead_if_symbol() {
            Err(e) => Err(e),
            Ok(Some(c)) => Ok(c == symbol),
            Ok(None) => Ok(false),
        }
    }

    /// Looks ahead; whether the next token is the identifier `ident`.
    pub fn lookahead_is_ident(&mut self, ident: &str) -> (r: TokenizerResult<bool>)
        ensures
            final(self)@ == looked(old(self)@),
            match peek(old(self)@) {
                Err(e) => r matches Err(err) && err@ == e,
                Ok(_) => r matches Ok(b) && b == next_is_ident(old(self)@, ident@),
            },
    {
        match self.lookahead() {
            Err(e) => Err(e),
            Ok(Some(Token::Ident(i))) => Ok(str_eq(i.as_str(), ident)),
            Ok(_) => Ok(false),
        }
    }

    /// Consumes the next token if it is the symbol `symbol`.
    pub fn next_symbol_if_eq(&mut self, symbol: char) -> (r: TokenizerResult<bool>)
        ensures
            final(self)@ == symbol_if_eq(old(self)@, symbol).1,
            match symbol_if_eq(old(self)@, symbol).0 {
                Ok(b) => r matches Ok(x) && x == b,
                Err(e) => r matches Err(err) && err@ == e,
            },
    {
        match self.lookahead_is_symbol(symbol) {
            Err(e) => Err(e),
            Ok(true) => match self.advance() {
                Ok(_) => Ok(true),
                Err(e) => Err(e),
            },
            Ok(false) => Ok(false),
        }
    }

    /// Consumes the symbol `symbol`, which must come next.
    pub fn next_symbol_expect_eq(&mut self, symbol: char) -> (r: TokenizerResult<()>)
        ensures
            final(self)@ == symbol_expect(old(self)@, symbol).1,
            match symbol_expect(old(self)@, symbol).0 {
                Ok(_) => r matches Ok(_),
                Err(e) => r matches Err(err) && err@ == e,
            },
    {
        match self.lookahead_is_symbol(symbol) {
            Err(e) => Err(e),
            Ok(true) => match self.advance() {
                Ok(_) => Ok(()),
                Err(e) => Err(e),
            },
            Ok(false) => Err(TokenizerError::ExpectChar(symbol)),
        }
    }

    /// Consumes an identifier, which must come next.
    pub fn next_ident(&mut self) -> (r: TokenizerResult<String>)
        ensures
            final(self)@ == ident_expect(old(self)@).1,
            match ident_expect(old(self)@).0 {
                Ok(word) => r matches Ok(s) && s@ == word,
                Err(e) => r matches Err(err) && err@ == e,
            },
    {
        let is_ident = match self.lookahead() {
            Err(e) => {
                return Err(e);
            },
            Ok(None) => {
                return Err(TokenizerError::UnexpectedEof);
            },
            Ok(Some(Token::Ident(_))) => true,
            Ok(Some(_)) => false,
        };
        if !is_ident {
            return Err(TokenizerError::ExpectIdent);
        }
        match self.advance() {
            Ok(Token::Ident(word)) => Ok(word),
            Ok(_) => Err(TokenizerError::InternalError),
            Err(e) => Err(e),
        }
    }

    /// Consumes a string literal, which must come next.
    pub fn next_str_lit(&mut self) -> (r: TokenizerResult<StrLit>)
        ensures
            final(self)@ == str_lit_expect(old(self)@).1,
            match str_lit_expect(old(self)@).0 {
                Ok(text) => r matches Ok(s) && s@ == text,
                Err(e) => r matches Err(err) && err@ == e,
            },
    {
        let is_str = match self.lookahead() {
            Err(e) => {
                return Err(e);
            },
            Ok(None) => {
                return Err(TokenizerError::UnexpectedEof);
            },
            Ok(Some(Token::StrLit(_))) => true,
            Ok(Some(_)) => false,
        };
        if !is_str {
            return Err(TokenizerError::ExpectStrLit);
        }
        match self.advance() {
            Ok(Token::StrLit(text)) => Ok(text),
            Ok(_) => Err(TokenizerError::InternalError),
            Err(e) => Err(e),
        }
    }
}

} // verus!
