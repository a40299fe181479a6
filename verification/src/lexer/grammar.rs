//! The lexical grammar, stated over a sequence of characters and indices into it.
//!
//! Every function here takes the whole input and a position, and says where the
//! construct that starts at that position ends, or why it is malformed.

use vstd::prelude::*;
use crate::lexer::chars::{
    hex_value, in_class, is_digit, is_hex_digit, is_ident_start, is_octal_digit, is_punctuation,
    is_whitespace, run_end, CharClass,
};
use crate::lexer::loc::{loc_at, Loc};
use crate::lexer::token::{LexerError, ParserLanguage, TokenView};

verus! {

/// The outcome of scanning one construct.
pub enum Scan<T> {
    /// The construct is well formed: what it is, and the index just behind it
    Done(T, int),
    /// The construct is malformed: why, and the index at which the scan gave up
    Fail(LexerError, int),
}

/// Whether the character at index `pos` is `c`.
pub open spec fn at(input: Seq<char>, pos: int, c: char) -> bool {
    0 <= pos < input.len() && input[pos] == c
}

/// The index just behind the first line feed at or after `pos`; the end of the
/// input where there is none.
pub open spec fn line_end(input: Seq<char>, pos: int) -> int
    decreases input.len() - pos,
{
    if pos < 0 || pos >= input.len() {
        pos
    } else if input[pos] == '\n' {
        pos + 1
    } else {
        line_end(input, pos + 1)
    }
}

/// The index just behind the first `*/` at or after `pos`, if there is one.
pub open spec fn block_comment_end(input: Seq<char>, pos: int) -> Option<int>
    decreases input.len() - pos,
{
    if pos < 0 || pos + 1 >= input.len() {
        None
    } else if input[pos] == '*' && input[pos + 1] == '/' {
        Some(pos + 2)
    } else {
        block_comment_end(input, pos + 1)
    }
}

/// A run ends at or after its start, within the input.
pub proof fn lemma_run_end_bounds(input: Seq<char>, pos: int, class: CharClass)
    requires
        0 <= pos <= input.len(),
    ensures
        pos <= run_end(input, pos, class) <= input.len(),
    decreases input.len() - pos,
{
    if pos < input.len() && in_class(class, input[pos]) {
        lemma_run_end_bounds(input, pos + 1, class);
    }
}

/// A line ends at or after its start, within the input.
pub proof fn lemma_line_end_bounds(input: Seq<char>, pos: int)
    requires
        0 <= pos <= input.len(),
    ensures
        pos <= line_end(input, pos) <= input.len(),
    decreases input.len() - pos,
{
    if pos < input.len() && input[pos] != '\n' {
        lemma_line_end_bounds(input, pos + 1);
    }
}

/// A block comment ends behind its `*/`, within the input.
pub proof fn lemma_block_comment_end_bounds(input: Seq<char>, pos: int)
    requires
        0 <= pos,
    ensures
        match block_comment_end(input, pos) {
            Some(q) => pos + 2 <= q <= input.len(),
            None => true,
        },
    decreases input.len() - pos,
{
    if pos + 1 < input.len() && !(input[pos] == '*' && input[pos + 1] == '/') {
        lemma_block_comment_end_bounds(input, pos + 1);
    }
}

/// Skips white space and the comments of `lang`, starting at `pos`: the index of
/// the first character that is neither, or of the end of the input. A block
/// comment that is never closed fails with `UnexpectedEof`, just behind its `/*`.
pub open spec fn skip_blank(input: Seq<char>, pos: int, lang: ParserLanguage) -> Scan<()>
    decreases input.len() - pos,
{
    if pos < 0 || pos >= input.len() {
        Scan::Done((), pos)
    } else if is_whitespace(input[pos]) {
        skip_blank(input, pos + 1, lang)
    } else if lang == ParserLanguage::Proto && input[pos] == '/' && at(input, pos + 1, '*') {
        match block_comment_end(input, pos + 2) {
            Some(q) => {
                proof {
                    lemma_block_comment_end_bounds(input, pos + 2);
                }
                skip_blank(input, q, lang)
            },
            None => Scan::Fail(LexerError::UnexpectedEof, pos + 2),
        }
    } else if lang == ParserLanguage::Proto && input[pos] == '/' && at(input, pos + 1, '/') {
        proof {
            lemma_line_end_bounds(input, pos + 2);
        }
        skip_blank(input, line_end(input, pos + 2), lang)
    } else if lang == ParserLanguage::TextFormat && input[pos] == '#' {
        proof {
            lemma_line_end_bounds(input, pos + 1);
        }
        skip_blank(input, line_end(input, pos + 1), lang)
    } else {
        Scan::Done((), pos)
    }
}

/// Skipping white space and comments never goes back, and stays within the input.
pub proof fn lemma_skip_blank_bounds(input: Seq<char>, pos: int, lang: ParserLanguage)
    requires
        0 <= pos <= input.len(),
    ensures
        match skip_blank(input, pos, lang) {
            Scan::Done(_, p) => pos <= p <= input.len(),
            Scan::Fail(_, c) => pos <= c <= input.len(),
        },
    decreases input.len() - pos,
{
    if pos >= input.len() {
    } else if is_whitespace(input[pos]) {
        lemma_skip_blank_bounds(input, pos + 1, lang);
    } else if lang == ParserLanguage::Proto && input[pos] == '/' && at(input, pos + 1, '*') {
        lemma_block_comment_end_bounds(input, pos + 2);
        match block_comment_end(input, pos + 2) {
            Some(q) => lemma_skip_blank_bounds(input, q, lang),
            None => {},
        }
    } else if lang == ParserLanguage::Proto && input[pos] == '/' && at(input, pos + 1, '/') {
        lemma_line_end_bounds(input, pos + 2);
        lemma_skip_blank_bounds(input, line_end(input, pos + 2), lang);
    } else if lang == ParserLanguage::TextFormat && input[pos] == '#' {
        lemma_line_end_bounds(input, pos + 1);
        lemma_skip_blank_bounds(input, line_end(input, pos + 1), lang);
    }
}

/// Every character of a run is of the class of the run.
pub proof fn lemma_run_members(input: Seq<char>, pos: int, class: CharClass)
    requires
        0 <= pos <= input.len(),
    ensures
        forall|i: int| pos <= i < run_end(input, pos, class) ==> in_class(class, #[trigger] input[i]),
    decreases input.len() - pos,
{
    if pos < input.len() && in_class(class, input[pos]) {
        lemma_run_members(input, pos + 1, class);
    }
}

/// The number that the digits `input[from..to]` spell in `base`.
pub open spec fn digits_value(input: Seq<char>, from: int, to: int, base: nat) -> nat
    decreases to - from,
{
    if from < 0 || to <= from || to > input.len() {
        0
    } else {
        digits_value(input, from, to - 1, base) * base + hex_value(input[to - 1])
    }
}

/// Whether every character of `input[from..to]` is an octal digit.
pub open spec fn all_octal(input: Seq<char>, from: int, to: int) -> bool {
    forall|i: int| from <= i < to && 0 <= i < input.len() ==> is_octal_digit(#[trigger] input[i])
}

/// The integer literal that starts at `pos`, if one does.
///
/// `0x` or `0X` starts a hexadecimal literal, which needs at least one digit. A
/// `0` followed by further digits starts an octal literal, which holds octal
/// digits only. Any other run of digits is decimal. A literal whose value does
/// not fit 64 bits is malformed.
pub open spec fn int_lit(input: Seq<char>, pos: int) -> Option<Scan<u64>> {
    if at(input, pos, '0') && (at(input, pos + 1, 'x') || at(input, pos + 1, 'X')) {
        let e = run_end(input, pos + 2, CharClass::HexDigit);
        let v = digits_value(input, pos + 2, e, 16);
        if e == pos + 2 || v > u64::MAX {
            Some(Scan::Fail(LexerError::ParseIntError, e))
        } else {
            Some(Scan::Done(v as u64, e))
        }
    } else if 0 <= pos < input.len() && is_digit(input[pos]) {
        let e = run_end(input, pos, CharClass::Digit);
        if input[pos] == '0' && e > pos + 1 {
            let v = digits_value(input, pos + 1, e, 8);
            if !all_octal(input, pos + 1, e) || v > u64::MAX {
                Some(Scan::Fail(LexerError::ParseIntError, pos))
            } else {
                Some(Scan::Done(v as u64, e))
            }
        } else {
            let v = digits_value(input, pos, e, 10);
            if v > u64::MAX {
                Some(Scan::Fail(LexerError::ParseIntError, pos))
            } else {
                Some(Scan::Done(v as u64, e))
            }
        }
    } else {
        None
    }
}

/// What stands where the exponent of a floating-point literal may stand.
pub enum Exponent {
    /// Neither `e` nor `E`
    Absent,
    /// A well-formed exponent, which ends at the index given
    Present(int),
    /// `e` or `E` without digits behind it and its sign
    Malformed,
}

/// The exponent at `pos`: `e` or `E`, an optional sign, and at least one digit.
pub open spec fn exponent(input: Seq<char>, pos: int) -> Exponent {
    if at(input, pos, 'e') || at(input, pos, 'E') {
        let s = if at(input, pos + 1, '+') || at(input, pos + 1, '-') {
            pos + 2
        } else {
            pos + 1
        };
        let e = run_end(input, s, CharClass::Digit);
        if e == s {
            Exponent::Malformed
        } else {
            Exponent::Present(e)
        }
    } else {
        Exponent::Absent
    }
}

/// The end of a fraction's digits at `d`, with the exponent that may follow them.
pub open spec fn float_tail(input: Seq<char>, d: int) -> Option<int> {
    match exponent(input, d) {
        Exponent::Malformed => None,
        Exponent::Absent => Some(d),
        Exponent::Present(e) => Some(e),
    }
}

/// The index just behind the floating-point literal that starts at `pos`, if one
/// does: digits, `.`, digits and an optional exponent; or digits and an
/// exponent; or `.`, digits and an optional exponent.
pub open spec fn float_end(input: Seq<char>, pos: int) -> Option<int> {
    if at(input, pos, '.') {
        let d = run_end(input, pos + 1, CharClass::Digit);
        if d == pos + 1 {
            None
        } else {
            float_tail(input, d)
        }
    } else {
        let d = run_end(input, pos, CharClass::Digit);
        if d == pos {
            None
        } else if at(input, d, '.') {
            let f = run_end(input, d + 1, CharClass::Digit);
            if f == d + 1 {
                None
            } else {
                float_tail(input, f)
            }
        } else {
            match exponent(input, d) {
                Exponent::Present(e) => Some(e),
                _ => None,
            }
        }
    }
}

/// What one character or escape of a string literal stands for.
pub enum CharValue {
    /// The byte that an escape names
    Byte(u8),
    /// A character that stands for itself
    Char(char),
}

/// The byte that the escape `\c` names, for the escapes of one letter.
pub open spec fn simple_escape(c: char) -> Option<u8> {
    if c == '\'' {
        Some(0x27u8)
    } else if c == '"' {
        Some(0x22u8)
    } else if c == '\\' {
        Some(0x5cu8)
    } else if c == 'a' {
        Some(0x07u8)
    } else if c == 'b' {
        Some(0x08u8)
    } else if c == 'f' {
        Some(0x0cu8)
    } else if c == 'n' {
        Some(0x0au8)
    } else if c == 'r' {
        Some(0x0du8)
    } else if c == 't' {
        Some(0x09u8)
    } else if c == 'v' {
        Some(0x0bu8)
    } else {
        None
    }
}

/// The octal escape whose first digit stands at `pos`: up to three octal digits.
/// A value above 255 is malformed.
pub open spec fn octal_escape(input: Seq<char>, pos: int) -> Scan<CharValue> {
    let d1 = hex_value(input[pos]);
    if pos + 1 < input.len() && is_octal_digit(input[pos + 1]) {
        let d2 = hex_value(input[pos + 1]);
        if pos + 2 < input.len() && is_octal_digit(input[pos + 2]) {
            let d3 = hex_value(input[pos + 2]);
            let v = d1 * 64 + d2 * 8 + d3;
            if v > 255 {
                Scan::Fail(LexerError::IncorrectInput, pos + 3)
            } else {
                Scan::Done(CharValue::Byte(v as u8), pos + 3)
            }
        } else {
            Scan::Done(CharValue::Byte((d1 * 8 + d2) as u8), pos + 2)
        }
    } else {
        Scan::Done(CharValue::Byte(d1 as u8), pos + 1)
    }
}

/// The two hexadecimal digits of a `\x` escape, the first of which stands at `pos`.
pub open spec fn hex_escape(input: Seq<char>, pos: int) -> Scan<CharValue> {
    if pos >= input.len() {
        Scan::Fail(LexerError::UnexpectedEof, pos)
    } else if !is_hex_digit(input[pos]) {
        Scan::Fail(LexerError::ExpectHexDigit, pos)
    } else if pos + 1 >= input.len() {
        Scan::Fail(LexerError::UnexpectedEof, pos + 1)
    } else if !is_hex_digit(input[pos + 1]) {
        Scan::Fail(LexerError::ExpectHexDigit, pos + 1)
    } else {
        Scan::Done(
            CharValue::Byte((hex_value(input[pos]) * 16 + hex_value(input[pos + 1])) as u8),
            pos + 2,
        )
    }
}

/// The character or escape of a string literal that starts at `pos`.
///
/// A backslash starts an escape: one of the letters of [`simple_escape`], `x` or
/// `X` with two hexadecimal digits, or up to three octal digits; before any
/// other character the backslash is dropped. A raw line feed or NUL is
/// malformed. Any other character stands for itself.
pub open spec fn char_value(input: Seq<char>, pos: int) -> Scan<CharValue> {
    if pos < 0 || pos >= input.len() {
        Scan::Fail(LexerError::UnexpectedEof, pos)
    } else if input[pos] == '\\' {
        if pos + 1 >= input.len() {
            Scan::Fail(LexerError::UnexpectedEof, pos + 1)
        } else {
            let c = input[pos + 1];
            if c == 'x' || c == 'X' {
                hex_escape(input, pos + 2)
            } else if is_octal_digit(c) {
                octal_escape(input, pos + 1)
            } else {
                match simple_escape(c) {
                    Some(b) => Scan::Done(CharValue::Byte(b), pos + 2),
                    None => Scan::Done(CharValue::Char(c), pos + 2),
                }
            }
        }
    } else if input[pos] == '\n' || input[pos] == '\0' {
        Scan::Fail(LexerError::IncorrectInput, pos + 1)
    } else {
        Scan::Done(CharValue::Char(input[pos]), pos + 1)
    }
}

/// The index of the quote `q` that closes the string literal whose contents
/// start at `pos`.
pub open spec fn quoted_end(input: Seq<char>, pos: int, q: char) -> Scan<()>
    decreases input.len() - pos,
{
    if at(input, pos, q) {
        Scan::Done((), pos)
    } else {
        match char_value(input, pos) {
            Scan::Fail(e, c) => Scan::Fail(e, c),
            Scan::Done(_, n) => quoted_end(input, n, q),
        }
    }
}

/// The quote that closes a string literal stands at or after the start of its contents.
pub proof fn lemma_quoted_end_bounds(input: Seq<char>, pos: int, q: char)
    requires
        0 <= pos <= input.len(),
    ensures
        match quoted_end(input, pos, q) {
            Scan::Done(_, p) => pos <= p < input.len() && input[p] == q,
            Scan::Fail(_, c) => pos <= c <= input.len(),
        },
    decreases input.len() - pos,
{
    if !at(input, pos, q) {
        match char_value(input, pos) {
            Scan::Fail(e, c) => {},
            Scan::Done(_, n) => lemma_quoted_end_bounds(input, n, q),
        }
    }
}

/// Whether `c` opens a string literal.
pub open spec fn is_quote(c: char) -> bool {
    c == '\'' || c == '"'
}

/// The string literal that starts at `pos`, where a quote stands: its text
/// between the quotes, escapes untouched. Literals that follow one another,
/// with nothing but white space and comments between them, are one literal. The
/// index is that of the first character behind the literal that is neither
/// white space nor part of a comment.
pub open spec fn str_lit(input: Seq<char>, pos: int, lang: ParserLanguage) -> Scan<Seq<char>>
    decreases input.len() - pos,
{
    if pos < 0 || pos >= input.len() || !is_quote(input[pos]) {
        Scan::Fail(LexerError::IncorrectInput, pos)
    } else {
        match quoted_end(input, pos + 1, input[pos]) {
            Scan::Fail(e, c) => Scan::Fail(e, c),
            Scan::Done(_, close) => {
                let piece = input.subrange(pos + 1, close);
                match skip_blank(input, close + 1, lang) {
                    Scan::Fail(e, c) => Scan::Fail(e, c),
                    Scan::Done(_, next) => {
                        if 0 <= next < input.len() && is_quote(input[next]) {
                            proof {
                                lemma_quoted_end_bounds(input, pos + 1, input[pos]);
                                lemma_skip_blank_bounds(input, close + 1, lang);
                            }
                            match str_lit(input, next, lang) {
                                Scan::Fail(e, c) => Scan::Fail(e, c),
                                Scan::Done(rest, end) => Scan::Done(piece + rest, end),
                            }
                        } else {
                            Scan::Done(piece, next)
                        }
                    },
                }
            },
        }
    }
}

/// A string literal ends behind its start, within the input.
pub proof fn lemma_str_lit_bounds(input: Seq<char>, pos: int, lang: ParserLanguage)
    requires
        0 <= pos <= input.len(),
    ensures
        match str_lit(input, pos, lang) {
            Scan::Done(_, p) => pos < p <= input.len(),
            Scan::Fail(_, c) => pos <= c <= input.len(),
        },
    decreases input.len() - pos,
{
    if pos < input.len() && is_quote(input[pos]) {
        lemma_quoted_end_bounds(input, pos + 1, input[pos]);
        match quoted_end(input, pos + 1, input[pos]) {
            Scan::Fail(e, c) => {},
            Scan::Done(_, close) => {
                lemma_skip_blank_bounds(input, close + 1, lang);
                match skip_blank(input, close + 1, lang) {
                    Scan::Fail(e, c) => {},
                    Scan::Done(_, next) => {
                        if 0 <= next < input.len() && is_quote(input[next]) {
                            lemma_str_lit_bounds(input, next, lang);
                        }
                    },
                }
            },
        }
    }
}

/// The word `nan`.
pub open spec fn word_nan() -> Seq<char> {
    seq!['n', 'a', 'n']
}

/// The word `inf`.
pub open spec fn word_inf() -> Seq<char> {
    seq!['i', 'n', 'f']
}

/// The token that a word is: the words `nan` and `inf` are floating-point
/// literals, every other word is an identifier.
pub open spec fn word_token(word: Seq<char>) -> TokenView {
    if word == word_nan() || word == word_inf() {
        TokenView::FloatLit(word)
    } else {
        TokenView::Ident(word)
    }
}

/// The token that starts at `pos`, where a character stands that is neither
/// white space nor the start of a comment.
///
/// In this order: a word; a floating-point literal; an integer literal; a string
/// literal; `::`; `->`; a single punctuation character. Anything else is
/// `IncorrectInput`.
pub open spec fn token_at(input: Seq<char>, pos: int, lang: ParserLanguage) -> Scan<TokenView> {
    if pos < 0 || pos >= input.len() {
        Scan::Fail(LexerError::UnexpectedEof, pos)
    } else if is_ident_start(input[pos]) {
        let e = run_end(input, pos + 1, CharClass::IdentPart);
        Scan::Done(word_token(input.subrange(pos, e)), e)
    } else if float_end(input, pos) is Some {
        let e = float_end(input, pos)->0;
        Scan::Done(TokenView::FloatLit(input.subrange(pos, e)), e)
    } else if int_lit(input, pos) is Some {
        match int_lit(input, pos)->0 {
            Scan::Done(v, e) => Scan::Done(TokenView::IntLit(v), e),
            Scan::Fail(x, c) => Scan::Fail(x, c),
        }
    } else if is_quote(input[pos]) {
        match str_lit(input, pos, lang) {
            Scan::Done(s, e) => Scan::Done(TokenView::StrLit(s), e),
            Scan::Fail(x, c) => Scan::Fail(x, c),
        }
    } else if input[pos] == ':' && at(input, pos + 1, ':') {
        Scan::Done(TokenView::DoubleColon, pos + 2)
    } else if input[pos] == '-' && at(input, pos + 1, '>') {
        Scan::Done(TokenView::FnReturns, pos + 2)
    } else if is_punctuation(input[pos]) {
        Scan::Done(TokenView::Symbol(input[pos]), pos + 1)
    } else {
        Scan::Fail(LexerError::IncorrectInput, pos)
    }
}

/// A floating-point literal ends behind its start, within the input.
pub proof fn lemma_float_end_bounds(input: Seq<char>, pos: int)
    requires
        0 <= pos <= input.len(),
    ensures
        match float_end(input, pos) {
            Some(e) => pos < e <= input.len(),
            None => true,
        },
{
    lemma_run_end_bounds(input, pos, CharClass::Digit);
    if pos < input.len() {
        lemma_run_end_bounds(input, pos + 1, CharClass::Digit);
    }
    let d = run_end(input, pos, CharClass::Digit);
    if d + 1 <= input.len() {
        lemma_run_end_bounds(input, d + 1, CharClass::Digit);
        lemma_exponent_bounds(input, run_end(input, d + 1, CharClass::Digit));
    }
    lemma_exponent_bounds(input, d);
    if pos < input.len() {
        lemma_exponent_bounds(input, run_end(input, pos + 1, CharClass::Digit));
    }
}

/// An exponent ends behind its start, within the input.
pub proof fn lemma_exponent_bounds(input: Seq<char>, pos: int)
    requires
        0 <= pos <= input.len(),
    ensures
        match exponent(input, pos) {
            Exponent::Present(e) => pos < e <= input.len(),
            _ => true,
        },
{
    if pos + 1 <= input.len() {
        lemma_run_end_bounds(input, pos + 1, CharClass::Digit);
    }
    if pos + 2 <= input.len() {
        lemma_run_end_bounds(input, pos + 2, CharClass::Digit);
    }
}

/// An integer literal ends behind its start, within the input.
pub proof fn lemma_int_lit_bounds(input: Seq<char>, pos: int)
    requires
        0 <= pos <= input.len(),
    ensures
        match int_lit(input, pos) {
            Some(Scan::Done(_, e)) => pos < e <= input.len(),
            Some(Scan::Fail(_, c)) => pos <= c <= input.len(),
            None => true,
        },
{
    lemma_run_end_bounds(input, pos, CharClass::Digit);
    if pos + 1 <= input.len() {
        lemma_run_end_bounds(input, pos + 1, CharClass::Digit);
    }
    if pos + 2 <= input.len() {
        lemma_run_end_bounds(input, pos + 2, CharClass::HexDigit);
    }
}

/// A token ends behind its start, within the input.
pub proof fn lemma_token_at_bounds(input: Seq<char>, pos: int, lang: ParserLanguage)
    requires
        0 <= pos <= input.len(),
    ensures
        match token_at(input, pos, lang) {
            Scan::Done(_, e) => pos < e <= input.len(),
            Scan::Fail(_, c) => pos <= c <= input.len(),
        },
{
    if pos < input.len() {
        lemma_run_end_bounds(input, pos + 1, CharClass::IdentPart);
        lemma_float_end_bounds(input, pos);
        lemma_int_lit_bounds(input, pos);
        lemma_str_lit_bounds(input, pos, lang);
    }
}

/// The next token at or after `pos`, with the position of its first character,
/// or `None` where only white space and comments are left. The index is that of
/// the first character behind the token that is neither white space nor part
/// of a comment.
pub open spec fn next_token(input: Seq<char>, pos: int, lang: ParserLanguage) -> Scan<
    Option<(TokenView, Loc)>,
> {
    match skip_blank(input, pos, lang) {
        Scan::Fail(e, c) => Scan::Fail(e, c),
        Scan::Done(_, start) => {
            if start >= input.len() {
                Scan::Done(None, start)
            } else {
                match token_at(input, start, lang) {
                    Scan::Fail(e, c) => Scan::Fail(e, c),
                    Scan::Done(t, end) => match skip_blank(input, end, lang) {
                        Scan::Fail(e, c) => Scan::Fail(e, c),
                        Scan::Done(_, next) => Scan::Done(
                            Some((t, loc_at(input, start))),
                            next,
                        ),
                    },
                }
            }
        },
    }
}

/// Reading a token moves forward, within the input.
pub proof fn lemma_next_token_bounds(input: Seq<char>, pos: int, lang: ParserLanguage)
    requires
        0 <= pos <= input.len(),
    ensures
        match next_token(input, pos, lang) {
            Scan::Done(Some(_), p) => pos < p <= input.len(),
            Scan::Done(None, p) => pos <= p <= input.len(),
            Scan::Fail(_, c) => pos <= c <= input.len(),
        },
{
    lemma_skip_blank_bounds(input, pos, lang);
    match skip_blank(input, pos, lang) {
        Scan::Fail(e, c) => {},
        Scan::Done(_, start) => {
            if start < input.len() {
                lemma_token_at_bounds(input, start, lang);
                match token_at(input, start, lang) {
                    Scan::Fail(e, c) => {},
                    Scan::Done(t, end) => {
                        lemma_skip_blank_bounds(input, end, lang);
                    },
                }
            }
        },
    }
}

/// All the tokens of a text, and how the text ends.
pub struct TokenStream {
    /// The tokens, in order
    pub tokens: Seq<TokenView>,
    /// The position of the first character of each token
    pub locs: Seq<Loc>,
    /// Why lexing stopped before the end of the text, if it did
    pub error: Option<LexerError>,
    /// Where lexing stopped: the end of the text, or where the malformed token
    /// was given up
    pub end: Loc,
}

/// The tokens of `input` from index `pos` on.
pub open spec fn lex_from(input: Seq<char>, pos: int, lang: ParserLanguage) -> TokenStream
    decreases input.len() - pos,
{
    if pos < 0 || pos > input.len() {
        TokenStream { tokens: seq![], locs: seq![], error: None, end: loc_at(input, pos) }
    } else {
        match next_token(input, pos, lang) {
            Scan::Fail(e, c) => TokenStream {
                tokens: seq![],
                locs: seq![],
                error: Some(e),
                end: loc_at(input, c),
            },
            Scan::Done(None, p) => TokenStream {
                tokens: seq![],
                locs: seq![],
                error: None,
                end: loc_at(input, p),
            },
            Scan::Done(Some(t), p) => {
                proof {
                    lemma_next_token_bounds(input, pos, lang);
                }
                let rest = lex_from(input, p, lang);
                TokenStream {
                    tokens: seq![t.0] + rest.tokens,
                    locs: seq![t.1] + rest.locs,
                    error: rest.error,
                    end: rest.end,
                }
            },
        }
    }
}

/// The tokens of a whole text.
pub open spec fn lex(input: Seq<char>, lang: ParserLanguage) -> TokenStream {
    lex_from(input, 0, lang)
}

/// Every token of a text has a position, which is that of a character of
/// the text.
pub proof fn law_tokens_have_positions(input: Seq<char>, pos: int, lang: ParserLanguage)
    ensures
        lex_from(input, pos, lang).locs.len() == lex_from(input, pos, lang).tokens.len(),
        forall|i: int|
            0 <= i < lex_from(input, pos, lang).locs.len() ==> exists|p: int|
                pos <= p < input.len() && #[trigger] lex_from(input, pos, lang).locs[i] == loc_at(
                    input,
                    p,
                ),
    decreases input.len() - pos,
{
    if 0 <= pos <= input.len() {
        match next_token(input, pos, lang) {
            Scan::Done(Some(t), next) => {
                lemma_next_token_bounds(input, pos, lang);
                lemma_skip_blank_bounds(input, pos, lang);
                law_tokens_have_positions(input, next, lang);
                let rest = lex_from(input, next, lang);
                let all = lex_from(input, pos, lang);
                let start = skip_blank(input, pos, lang)->Done_1;
                assert(t.1 == loc_at(input, start));
                assert forall|i: int| 0 <= i < all.locs.len() implies exists|p: int|
                    pos <= p < input.len() && #[trigger] all.locs[i] == loc_at(input, p) by {
                    if i == 0 {
                        assert(all.locs[0] == loc_at(input, start));
                    } else {
                        assert(all.locs[i] == rest.locs[i - 1]);
                        let p = choose|p: int|
                            next <= p < input.len() && rest.locs[i - 1] == loc_at(input, p);
                        assert(all.locs[i] == loc_at(input, p));
                    }
                }
            },
            _ => {},
        }
    }
}

/// Whether a text is a word: a letter or `_`, and then letters, digits
/// and `_` only.
pub open spec fn is_word(text: Seq<char>) -> bool {
    text.len() > 0 && is_ident_start(text[0]) && forall|i: int|
        0 < i < text.len() ==> crate::lexer::chars::is_ident_part(#[trigger] text[i])
}

/// Every identifier is a word, and so is the text of a floating-point
/// literal that starts with a letter: it is `nan` or `inf`.
pub proof fn law_identifiers_are_words(input: Seq<char>, pos: int, lang: ParserLanguage)
    requires
        0 <= pos < input.len(),
    ensures
        match token_at(input, pos, lang) {
            Scan::Done(TokenView::Ident(word), end) => is_word(word) && word == input.subrange(
                pos,
                end,
            ) && word != word_nan() && word != word_inf(),
            Scan::Done(TokenView::FloatLit(text), end) => text == input.subrange(pos, end) && (
            is_ident_start(input[pos]) ==> text == word_nan() || text == word_inf()),
            _ => true,
        },
{
    if is_ident_start(input[pos]) {
        let end = run_end(input, pos + 1, CharClass::IdentPart);
        lemma_run_end_bounds(input, pos + 1, CharClass::IdentPart);
        lemma_run_members(input, pos + 1, CharClass::IdentPart);
        let word = input.subrange(pos, end);
        assert(word[0] == input[pos]);
        assert forall|i: int| 0 < i < word.len() implies crate::lexer::chars::is_ident_part(
            #[trigger] word[i],
        ) by {
            assert(word[i] == input[pos + i]);
            assert(in_class(CharClass::IdentPart, input[pos + i]));
        }
    } else {
        lemma_float_end_bounds(input, pos);
        lemma_int_lit_bounds(input, pos);
        lemma_str_lit_bounds(input, pos, lang);
    }
}

} // verus!
