//! The lexer: a cursor over a text that hands out one token at a time.

use vstd::prelude::*;
use crate::lexer::grammar::{
    lemma_next_token_bounds, lex, lex_from, next_token, Scan, TokenStream,
};
use crate::lexer::loc::{loc_at, Loc};
use crate::lexer::scan::{scan_blank, scan_token};
use crate::lexer::token::{LexerError, ParserLanguage, TokenView, TokenWithLocation};
use crate::text::chars_of;

verus! {

/// An index into a text together with the position that it stands for.
#[derive(Clone, Copy)]
struct Cursor {
    pos: usize,
    loc: Loc,
}

/// A lexer over one text.
pub struct Lexer {
    language: ParserLanguage,
    input: Vec<char>,
    cursor: Cursor,
}

/// The position of index `to`, given the position `loc` of index `from`.
fn loc_advance(input: &Vec<char>, from: usize, loc: Loc, to: usize) -> (r: Loc)
    requires
        from <= to <= input@.len(),
        loc == loc_at(input@, from as int),
    ensures
        r == loc_at(input@, to as int),
{
    let mut i: usize = from;
    let mut cur = loc;
    while i < to
        invariant
            from <= i <= to <= input@.len(),
            cur == loc_at(input@, i as int),
        decreases to - i,
    {
        cur = cur.step(input[i]);
        i = i + 1;
    }
    cur
}

impl Lexer {
    #[verifier::type_invariant]
    spec fn inv(self) -> bool {
        &&& self.cursor.pos <= self.input@.len()
        &&& self.cursor.loc == loc_at(self.input@, self.cursor.pos as int)
    }

    /// The text that this lexer reads.
    pub closed spec fn text(&self) -> Seq<char> {
        self.input@
    }

    /// The index of the next character to read.
    pub closed spec fn index(&self) -> int {
        self.cursor.pos as int
    }

    /// The comment style.
    pub closed spec fn lang(&self) -> ParserLanguage {
        self.language
    }

    /// A lexer at the start of `input`.
    pub fn new(input: &str, language: ParserLanguage) -> (r: Lexer)
        ensures
            r.text() == input@,
            r.index() == 0,
            r.lang() == language,
    {
        Lexer { language, input: chars_of(input), cursor: Cursor { pos: 0, loc: Loc::start() } }
    }

    /// The position of the next character to read.
    pub fn loc(&self) -> (r: Loc)
        ensures
            r == loc_at(self.text(), self.index()),
            0 <= self.index() <= self.text().len(),
    {
        proof {
            use_type_invariant(self);
        }
        self.cursor.loc
    }

    /// Whether every character has been read.
    pub fn eof(&self) -> (r: bool)
        ensures
            r == (self.index() == self.text().len()),
    {
        proof {
            use_type_invariant(self);
        }
        self.cursor.pos == self.input.len()
    }

    /// Moves the cursor to index `to`.
    fn move_to(&mut self, to: usize)
        requires
            old(self).index() <= to <= old(self).text().len(),
        ensures
            final(self).text() == old(self).text(),
            final(self).lang() == old(self).lang(),
            final(self).index() == to,
    {
        proof {
            use_type_invariant(&*self);
        }
        let loc = loc_advance(&self.input, self.cursor.pos, self.cursor.loc, to);
        self.cursor = Cursor { pos: to, loc };
    }

    /// Reads the next token, skipping the white space and comments on both
    /// sides of it. `Ok(None)` at the end of the text. After an error the cursor
    /// stands where the malformed token was given up.
    pub fn next_token(&mut self) -> (r: Result<Option<TokenWithLocation>, LexerError>)
        ensures
            final(self).text() == old(self).text(),
            final(self).lang() == old(self).lang(),
            old(self).index() <= final(self).index() <= old(self).text().len(),
            match next_token(old(self).text(), old(self).index(), old(self).lang()) {
                Scan::Fail(e, c) => r == Err::<Option<TokenWithLocation>, LexerError>(e)
                    && final(self).index() == c,
                Scan::Done(None, p) => r == Ok::<Option<TokenWithLocation>, LexerError>(None)
                    && final(self).index() == p,
                Scan::Done(Some(t), p) => r matches Ok(Some(tw)) && tw.token@ == t.0 && tw.loc
                    == t.1 && final(self).index() == p && old(self).index() < p,
            },
    {
        proof {
            use_type_invariant(&*self);
            lemma_next_token_bounds(self.text(), self.index(), self.lang());
        }
        let start = match scan_blank(&self.input, self.cursor.pos, self.language) {
            Err((e, c)) => {
                self.move_to(c);
                return Err(e);
            },
            Ok((_, start)) => start,
        };
        self.move_to(start);
        if start >= self.input.len() {
            return Ok(None);
        }
        proof {
            use_type_invariant(&*self);
        }
        let loc = self.cursor.loc;
        let (token, end) = match scan_token(&self.input, start, self.language) {
            Err((e, c)) => {
                self.move_to(c);
                return Err(e);
            },
            Ok((token, end)) => (token, end),
        };
        match scan_blank(&self.input, end, self.language) {
            Err((e, c)) => {
                self.move_to(c);
                Err(e)
            },
            Ok((_, next)) => {
                self.move_to(next);
                Ok(Some(TokenWithLocation { token, loc }))
            },
        }
    }
}

/// The tokens of a vector of tokens with their positions.
pub open spec fn token_views(v: Seq<TokenWithLocation>) -> Seq<TokenView> {
    Seq::new(v.len(), |i: int| v[i].token@)
}

/// The positions of a vector of tokens with their positions.
pub open spec fn token_locs(v: Seq<TokenWithLocation>) -> Seq<Loc> {
    Seq::new(v.len(), |i: int| v[i].loc)
}

/// All the tokens of a text, and how the text ends.
pub struct Lexed {
    /// The tokens, in order
    pub tokens: Vec<TokenWithLocation>,
    /// Why lexing stopped before the end of the text, if it did
    pub error: Option<LexerError>,
    /// Where lexing stopped
    pub end: Loc,
}

impl View for Lexed {
    type V = TokenStream;

    open spec fn view(&self) -> TokenStream {
        TokenStream {
            tokens: token_views(self.tokens@),
            locs: token_locs(self.tokens@),
            error: self.error,
            end: self.end,
        }
    }
}

impl Clone for Lexed {
    fn clone(&self) -> (r: Self)
        ensures
            r@ == self@,
            r.tokens@.len() == self.tokens@.len(),
    {
        let mut tokens: Vec<TokenWithLocation> = Vec::new();
        let mut i: usize = 0;
        while i < self.tokens.len()
            invariant
                0 <= i <= self.tokens@.len(),
                tokens@.len() == i,
                forall|k: int|
                    0 <= k < i ==> (#[trigger] tokens@[k]).token@ == self.tokens@[k].token@
                        && tokens@[k].loc == self.tokens@[k].loc,
            decreases self.tokens@.len() - i,
        {
            let t = self.tokens[i].clone();
            tokens.push(t);
            i = i + 1;
        }
        let r = Lexed { tokens, error: self.error, end: self.end };
        assert(r@.tokens =~= self@.tokens);
        assert(r@.locs =~= self@.locs);
        r
    }
}

/// Reads all the tokens of `input`.
pub fn lex_all(input: &str, language: ParserLanguage) -> (r: Lexed)
    ensures
        r@ == lex(input@, language),
{
    let mut lexer = Lexer::new(input, language);
    let mut tokens: Vec<TokenWithLocation> = Vec::new();
    loop
        invariant
            lexer.text() == input@,
            lexer.lang() == language,
            0 <= lexer.index() <= input@.len(),
            lex(input@, language).tokens == token_views(tokens@) + lex_from(
                input@,
                lexer.index(),
                language,
            ).tokens,
            lex(input@, language).locs == token_locs(tokens@) + lex_from(
                input@,
                lexer.index(),
                language,
            ).locs,
            lex(input@, language).error == lex_from(input@, lexer.index(), language).error,
            lex(input@, language).end == lex_from(input@, lexer.index(), language).end,
        decreases input@.len() - lexer.index(),
    {
        let ghost before = tokens@;
        let ghost at = lexer.index();
        match lexer.next_token() {
            Err(e) => {
                let end = lexer.loc();
                let r = Lexed { tokens, error: Some(e), end };
                proof {
                    assert(r@.tokens =~= lex(input@, language).tokens);
                    assert(r@.locs =~= lex(input@, language).locs);
                }
                return r;
            },
            Ok(None) => {
                let end = lexer.loc();
                let r = Lexed { tokens, error: None, end };
                proof {
                    assert(r@.tokens =~= lex(input@, language).tokens);
                    assert(r@.locs =~= lex(input@, language).locs);
                }
                return r;
            },
            Ok(Some(tw)) => {
                tokens.push(tw);
                proof {
                    let rest = lex_from(input@, lexer.index(), language);
                    assert(token_views(tokens@) =~= token_views(before).push(tw.token@));
                    assert(token_locs(tokens@) =~= token_locs(before).push(tw.loc));
                    assert(token_views(before) + (seq![tw.token@] + rest.tokens) =~= token_views(
                        tokens@,
                    ) + rest.tokens);
                    assert(token_locs(before) + (seq![tw.loc] + rest.locs) =~= token_locs(tokens@)
                        + rest.locs);
                }
            },
        }
    }
}

} // verus!
