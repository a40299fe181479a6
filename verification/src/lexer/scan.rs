//! Scanning: the lexical grammar, run over a vector of characters.

use vstd::prelude::*;
use crate::lexer::chars::{
    char_hex_value, char_is_digit, char_is_hex_digit, char_is_ident_start, char_is_octal_digit,
    char_is_punctuation, char_is_whitespace, hex_value, in_class, is_hex_digit, is_octal_digit,
    run_end, CharClass,
};
use crate::lexer::grammar::{
    all_octal, at, block_comment_end, char_value, digits_value, exponent, float_end, float_tail,
    hex_escape, int_lit, is_quote, lemma_exponent_bounds, lemma_float_end_bounds,
    lemma_int_lit_bounds, lemma_run_members, lemma_str_lit_bounds, line_end, octal_escape,
    quoted_end, simple_escape, skip_blank, str_lit, token_at, CharValue, Exponent, Scan,
};
use crate::lexer::token::{LexerError, ParserLanguage, StrLit, Token};
use crate::text::{append_range, string_of};

verus! {

/// What a scan found: the value and the index behind it, or the error and the
/// index at which the scan gave up.
pub type Scanned<T> = Result<(T, usize), (LexerError, usize)>;

/// Whether the result of a scan that yields no value is the outcome `s`.
pub open spec fn is_scan(r: Scanned<()>, s: Scan<()>) -> bool {
    match s {
        Scan::Done(_, p) => r == Ok::<((), usize), (LexerError, usize)>(((), p as usize)) && 0 <= p
            <= usize::MAX,
        Scan::Fail(e, c) => r == Err::<((), usize), (LexerError, usize)>((e, c as usize)) && 0 <= c
            <= usize::MAX,
    }
}

/// Whether the character at `pos` is `c`.
pub(crate) fn char_at(input: &Vec<char>, pos: usize, c: char) -> (r: bool)
    ensures
        r == at(input@, pos as int, c),
{
    pos < input.len() && input[pos] == c
}

/// The end of the longest run of characters of `class` from `pos` on.
pub(crate) fn scan_run(input: &Vec<char>, pos: usize, class: CharClass) -> (e: usize)
    requires
        pos <= input@.len(),
    ensures
        e == run_end(input@, pos as int, class),
        pos <= e <= input@.len(),
{
    let mut i: usize = pos;
    while i < input.len() && class.has(input[i])
        invariant
            pos <= i <= input@.len(),
            run_end(input@, pos as int, class) == run_end(input@, i as int, class),
        decreases input@.len() - i,
    {
        i = i + 1;
    }
    i
}

/// The index behind the first line feed from `pos` on, or the end of the input.
pub(crate) fn scan_line_end(input: &Vec<char>, pos: usize) -> (e: usize)
    requires
        pos <= input@.len(),
    ensures
        e == line_end(input@, pos as int),
        pos <= e <= input@.len(),
{
    let mut i: usize = pos;
    while i < input.len()
        invariant
            pos <= i <= input@.len(),
            line_end(input@, pos as int) == line_end(input@, i as int),
        decreases input@.len() - i,
    {
        if input[i] == '\n' {
            return i + 1;
        }
        i = i + 1;
    }
    i
}

/// The index behind the first `*/` from `pos` on, if there is one.
pub(crate) fn scan_block_comment_end(input: &Vec<char>, pos: usize) -> (r: Option<usize>)
    requires
        pos <= input@.len(),
    ensures
        match r {
            Some(q) => block_comment_end(input@, pos as int) == Some(q as int) && pos + 2 <= q
                <= input@.len(),
            None => block_comment_end(input@, pos as int) is None,
        },
{
    let mut i: usize = pos;
    while i < input.len() && i + 1 < input.len()
        invariant
            pos <= i <= input@.len(),
            block_comment_end(input@, pos as int) == block_comment_end(input@, i as int),
        decreases input@.len() - i,
    {
        if input[i] == '*' && input[i + 1] == '/' {
            return Some(i + 2);
        }
        i = i + 1;
    }
    None
}

/// Skips white space and comments from `pos` on.
pub(crate) fn scan_blank(input: &Vec<char>, pos: usize, lang: ParserLanguage) -> (r: Scanned<()>)
    requires
        pos <= input@.len(),
    ensures
        is_scan(r, skip_blank(input@, pos as int, lang)),
        match r {
            Ok((_, p)) => pos <= p <= input@.len(),
            Err((_, c)) => pos <= c <= input@.len(),
        },
{
    let mut i: usize = pos;
    while i < input.len()
        invariant
            pos <= i <= input@.len(),
            skip_blank(input@, pos as int, lang) == skip_blank(input@, i as int, lang),
        decreases input@.len() - i,
    {
        let c = input[i];
        if char_is_whitespace(c) {
            i = i + 1;
        } else if lang == ParserLanguage::Proto && c == '/' && char_at(input, i + 1, '*') {
            match scan_block_comment_end(input, i + 2) {
                Some(q) => {
                    i = q;
                },
                None => {
                    return Err((LexerError::UnexpectedEof, i + 2));
                },
            }
        } else if lang == ParserLanguage::Proto && c == '/' && char_at(input, i + 1, '/') {
            i = scan_line_end(input, i + 2);
        } else if lang == ParserLanguage::TextFormat && c == '#' {
            i = scan_line_end(input, i + 1);
        } else {
            return Ok(((), i));
        }
    }
    Ok(((), i))
}

proof fn lemma_digits_value_grows(input: Seq<char>, from: int, mid: int, to: int, base: nat)
    requires
        0 <= from <= mid <= to <= input.len(),
        base >= 1,
    ensures
        digits_value(input, from, mid, base) <= digits_value(input, from, to, base),
    decreases to - mid,
{
    if mid < to {
        lemma_digits_value_grows(input, from, mid, to - 1, base);
        let v = digits_value(input, from, to - 1, base);
        assert(v * base >= v) by (nonlinear_arith)
            requires
                base >= 1,
                v >= 0,
        ;
    }
}

/// The number that the digits `input[from..to]` spell in `base`, unless it does
/// not fit 64 bits.
pub(crate) fn scan_digits_value(input: &Vec<char>, from: usize, to: usize, base: u64) -> (r: Option<u64>)
    requires
        from <= to <= input@.len(),
        1 <= base <= 16,
        forall|i: int| from <= i < to ==> is_hex_digit(#[trigger] input@[i]),
    ensures
        match r {
            Some(v) => v == digits_value(input@, from as int, to as int, base as nat),
            None => digits_value(input@, from as int, to as int, base as nat) > u64::MAX,
        },
{
    let mut acc: u64 = 0;
    let mut i: usize = from;
    while i < to
        invariant
            from <= i <= to <= input@.len(),
            1 <= base <= 16,
            forall|k: int| from <= k < to ==> is_hex_digit(#[trigger] input@[k]),
            acc == digits_value(input@, from as int, i as int, base as nat),
        decreases to - i,
    {
        let d: u64 = char_hex_value(input[i]) as u64;
        let next = match acc.checked_mul(base) {
            Some(m) => m.checked_add(d),
            None => None,
        };
        proof {
            assert(digits_value(input@, from as int, i + 1, base as nat) == acc * base + hex_value(
                input@[i as int],
            ));
            lemma_digits_value_grows(input@, from as int, i + 1, to as int, base as nat);
        }
        match next {
            Some(v) => {
                acc = v;
            },
            None => {
                return None;
            },
        }
        i = i + 1;
    }
    Some(acc)
}

/// Whether every character of `input[from..to]` is an octal digit.
pub(crate) fn scan_all_octal(input: &Vec<char>, from: usize, to: usize) -> (r: bool)
    requires
        from <= to <= input@.len(),
    ensures
        r == all_octal(input@, from as int, to as int),
{
    let mut i: usize = from;
    while i < to
        invariant
            from <= i <= to <= input@.len(),
            all_octal(input@, from as int, i as int),
        decreases to - i,
    {
        if !char_is_octal_digit(input[i]) {
            return false;
        }
        i = i + 1;
    }
    true
}

/// The integer literal that starts at `pos`, if one does.
pub(crate) fn scan_int_lit(input: &Vec<char>, pos: usize) -> (r: Option<Scanned<u64>>)
    requires
        pos <= input@.len(),
    ensures
        match int_lit(input@, pos as int) {
            Some(Scan::Done(v, e)) => r == Some(
                Ok::<(u64, usize), (LexerError, usize)>((v, e as usize)),
            ) && pos < e <= input@.len(),
            Some(Scan::Fail(x, c)) => r == Some(
                Err::<(u64, usize), (LexerError, usize)>((x, c as usize)),
            ) && pos <= c <= input@.len(),
            None => r is None,
        },
{
    let _len: usize = input.len();
    proof {
        lemma_int_lit_bounds(input@, pos as int);
    }
    if char_at(input, pos, '0') && (char_at(input, pos + 1, 'x') || char_at(input, pos + 1, 'X')) {
        let e = scan_run(input, pos + 2, CharClass::HexDigit);
        proof {
            lemma_run_members(input@, pos + 2, CharClass::HexDigit);
        }
        if e == pos + 2 {
            return Some(Err((LexerError::ParseIntError, e)));
        }
        match scan_digits_value(input, pos + 2, e, 16) {
            Some(v) => Some(Ok((v, e))),
            None => Some(Err((LexerError::ParseIntError, e))),
        }
    } else if pos < input.len() && char_is_digit(input[pos]) {
        let e = scan_run(input, pos, CharClass::Digit);
        proof {
            lemma_run_members(input@, pos as int, CharClass::Digit);
        }
        if input[pos] == '0' && e > pos + 1 {
            if !scan_all_octal(input, pos + 1, e) {
                return Some(Err((LexerError::ParseIntError, pos)));
            }
            match scan_digits_value(input, pos + 1, e, 8) {
                Some(v) => Some(Ok((v, e))),
                None => Some(Err((LexerError::ParseIntError, pos))),
            }
        } else {
            match scan_digits_value(input, pos, e, 10) {
                Some(v) => Some(Ok((v, e))),
                None => Some(Err((LexerError::ParseIntError, pos))),
            }
        }
    } else {
        None
    }
}

/// The exponent at `pos`.
pub(crate) fn scan_exponent(input: &Vec<char>, pos: usize) -> (r: Option<Option<usize>>)
    requires
        pos <= input@.len(),
    ensures
        match exponent(input@, pos as int) {
            Exponent::Absent => r == Some(None::<usize>),
            Exponent::Present(e) => r == Some(Some(e as usize)) && pos < e <= input@.len(),
            Exponent::Malformed => r is None,
        },
{
    let _len: usize = input.len();
    proof {
        lemma_exponent_bounds(input@, pos as int);
    }
    if char_at(input, pos, 'e') || char_at(input, pos, 'E') {
        let s: usize = if char_at(input, pos + 1, '+') || char_at(input, pos + 1, '-') {
            pos + 2
        } else {
            pos + 1
        };
        let e = scan_run(input, s, CharClass::Digit);
        if e == s {
            None
        } else {
            Some(Some(e))
        }
    } else {
        Some(None)
    }
}

/// The end of a fraction's digits at `d`, with the exponent that may follow.
fn scan_float_tail(input: &Vec<char>, d: usize) -> (r: Option<usize>)
    requires
        d <= input@.len(),
    ensures
        match float_tail(input@, d as int) {
            Some(e) => r == Some(e as usize) && d <= e <= input@.len(),
            None => r is None,
        },
{
    match scan_exponent(input, d) {
        None => None,
        Some(None) => Some(d),
        Some(Some(e)) => Some(e),
    }
}

/// The index behind the floating-point literal that starts at `pos`, if one does.
pub(crate) fn scan_float_end(input: &Vec<char>, pos: usize) -> (r: Option<usize>)
    requires
        pos <= input@.len(),
    ensures
        match float_end(input@, pos as int) {
            Some(e) => r == Some(e as usize) && pos < e <= input@.len(),
            None => r is None,
        },
{
    let _len: usize = input.len();
    proof {
        lemma_float_end_bounds(input@, pos as int);
    }
    if char_at(input, pos, '.') {
        let d = scan_run(input, pos + 1, CharClass::Digit);
        if d == pos + 1 {
            None
        } else {
            scan_float_tail(input, d)
        }
    } else {
        let d = scan_run(input, pos, CharClass::Digit);
        if d == pos {
            None
        } else if char_at(input, d, '.') {
            let f = scan_run(input, d + 1, CharClass::Digit);
            if f == d + 1 {
                None
            } else {
                scan_float_tail(input, f)
            }
        } else {
            match scan_exponent(input, d) {
                Some(Some(e)) => Some(e),
                _ => None,
            }
        }
    }
}

/// The byte that the escape `\c` names, for the escapes of one letter.
pub(crate) fn scan_simple_escape(c: char) -> (r: Option<u8>)
    ensures
        r == simple_escape(c),
{
    if c == '\'' {
        Some(0x27u8)
    } else if c == '"' {
        Some(0x22u8)
    } else if c == '\\' {
        Some(0x5cu8)
    } else if c == 'a' {
        Some(0x07u8)
    } else if c == 'b' {
        Some(0x08u8)
    } else if c == 'f' {
        Some(0x0cu8)
    } else if c == 'n' {
        Some(0x0au8)
    } else if c == 'r' {
        Some(0x0du8)
    } else if c == 't' {
        Some(0x09u8)
    } else if c == 'v' {
        Some(0x0bu8)
    } else {
        None
    }
}

/// Whether the result of a scan is the outcome `s`.
pub open spec fn is_value_scan(r: Scanned<CharValue>, s: Scan<CharValue>) -> bool {
    match s {
        Scan::Done(v, p) => r == Ok::<(CharValue, usize), (LexerError, usize)>((v, p as usize))
            && 0 <= p <= usize::MAX,
        Scan::Fail(e, c) => r == Err::<(CharValue, usize), (LexerError, usize)>((e, c as usize))
            && 0 <= c <= usize::MAX,
    }
}

/// The octal escape whose first digit stands at `pos`.
fn scan_octal_escape(input: &Vec<char>, pos: usize) -> (r: Scanned<CharValue>)
    requires
        pos < input@.len(),
        is_octal_digit(input@[pos as int]),
    ensures
        is_value_scan(r, octal_escape(input@, pos as int)),
        match r {
            Ok((_, p)) => pos < p <= input@.len(),
            Err((_, c)) => pos < c <= input@.len(),
        },
{
    let _len: usize = input.len();
    let d1: u32 = char_hex_value(input[pos]) as u32;
    if pos + 1 < input.len() && char_is_octal_digit(input[pos + 1]) {
        let d2: u32 = char_hex_value(input[pos + 1]) as u32;
        if pos + 2 < input.len() && char_is_octal_digit(input[pos + 2]) {
            let d3: u32 = char_hex_value(input[pos + 2]) as u32;
            let v: u32 = d1 * 64 + d2 * 8 + d3;
            if v > 255 {
                Err((LexerError::IncorrectInput, pos + 3))
            } else {
                Ok((CharValue::Byte(v as u8), pos + 3))
            }
        } else {
            Ok((CharValue::Byte((d1 * 8 + d2) as u8), pos + 2))
        }
    } else {
        Ok((CharValue::Byte(d1 as u8), pos + 1))
    }
}

/// The two hexadecimal digits of a `\x` escape, from `pos` on.
fn scan_hex_escape(input: &Vec<char>, pos: usize) -> (r: Scanned<CharValue>)
    requires
        2 <= pos <= input@.len(),
    ensures
        is_value_scan(r, hex_escape(input@, pos as int)),
        match r {
            Ok((_, p)) => pos < p <= input@.len(),
            Err((_, c)) => pos <= c <= input@.len(),
        },
{
    if pos >= input.len() {
        Err((LexerError::UnexpectedEof, pos))
    } else if !char_is_hex_digit(input[pos]) {
        Err((LexerError::ExpectHexDigit, pos))
    } else if pos + 1 >= input.len() {
        Err((LexerError::UnexpectedEof, pos + 1))
    } else if !char_is_hex_digit(input[pos + 1]) {
        Err((LexerError::ExpectHexDigit, pos + 1))
    } else {
        let h: u32 = char_hex_value(input[pos]) as u32;
        let l: u32 = char_hex_value(input[pos + 1]) as u32;
        Ok((CharValue::Byte((h * 16 + l) as u8), pos + 2))
    }
}

/// The character or escape of a string literal that starts at `pos`.
pub(crate) fn scan_char_value(input: &Vec<char>, pos: usize) -> (r: Scanned<CharValue>)
    requires
        pos <= input@.len(),
    ensures
        is_value_scan(r, char_value(input@, pos as int)),
        match r {
            Ok((_, p)) => pos < p <= input@.len(),
            Err((_, c)) => pos <= c <= input@.len(),
        },
{
    if pos >= input.len() {
        Err((LexerError::UnexpectedEof, pos))
    } else if input[pos] == '\\' {
        if pos + 1 >= input.len() {
            Err((LexerError::UnexpectedEof, pos + 1))
        } else {
            let c = input[pos + 1];
            if c == 'x' || c == 'X' {
                scan_hex_escape(input, pos + 2)
            } else if char_is_octal_digit(c) {
                scan_octal_escape(input, pos + 1)
            } else {
                match scan_simple_escape(c) {
                    Some(b) => Ok((CharValue::Byte(b), pos + 2)),
                    None => Ok((CharValue::Char(c), pos + 2)),
                }
            }
        }
    } else if input[pos] == '\n' || input[pos] == '\0' {
        Err((LexerError::IncorrectInput, pos + 1))
    } else {
        Ok((CharValue::Char(input[pos]), pos + 1))
    }
}

/// The index of the quote `q` that closes the string literal whose contents
/// start at `pos`.
pub(crate) fn scan_quoted_end(input: &Vec<char>, pos: usize, q: char) -> (r: Scanned<()>)
    requires
        pos <= input@.len(),
    ensures
        is_scan(r, quoted_end(input@, pos as int, q)),
        match r {
            Ok((_, p)) => pos <= p < input@.len(),
            Err((_, c)) => pos <= c <= input@.len(),
        },
{
    let mut i: usize = pos;
    loop
        invariant
            pos <= i <= input@.len(),
            quoted_end(input@, pos as int, q) == quoted_end(input@, i as int, q),
        decreases input@.len() - i,
    {
        if char_at(input, i, q) {
            return Ok(((), i));
        }
        match scan_char_value(input, i) {
            Err((e, c)) => {
                return Err((e, c));
            },
            Ok((_, n)) => {
                i = n;
            },
        }
    }
}

/// Whether `c` opens a string literal.
pub(crate) fn char_is_quote(c: char) -> (r: bool)
    ensures
        r == is_quote(c),
{
    c == '\'' || c == '"'
}

/// The string literal that starts at `pos`, where a quote stands.
pub(crate) fn scan_str_lit(input: &Vec<char>, pos: usize, lang: ParserLanguage) -> (r: Scanned<String>)
    requires
        pos < input@.len(),
        is_quote(input@[pos as int]),
    ensures
        match str_lit(input@, pos as int, lang) {
            Scan::Done(s, e) => r matches Ok((text, end)) && text@ == s && end == e && pos < end
                <= input@.len(),
            Scan::Fail(x, c) => r matches Err((err, cur)) && err == x && cur == c && pos <= cur
                <= input@.len(),
        },
{
    let _len: usize = input.len();
    let mut out = String::new();
    let mut i: usize = pos;
    proof {
        lemma_str_lit_bounds(input@, pos as int, lang);
    }
    loop
        invariant
            pos <= i < input@.len(),
            input@.len() == _len,
            is_quote(input@[i as int]),
            match str_lit(input@, i as int, lang) {
                Scan::Done(s, e) => str_lit(input@, pos as int, lang) == Scan::Done(out@ + s, e),
                Scan::Fail(x, c) => str_lit(input@, pos as int, lang) == Scan::<Seq<char>>::Fail(
                    x,
                    c,
                ),
            },
        decreases input@.len() - i,
    {
        let close = match scan_quoted_end(input, i + 1, input[i]) {
            Err((e, c)) => {
                return Err((e, c));
            },
            Ok((_, close)) => close,
        };
        let ghost before = out@;
        append_range(&mut out, input, i + 1, close);
        let next = match scan_blank(input, close + 1, lang) {
            Err((e, c)) => {
                return Err((e, c));
            },
            Ok((_, next)) => next,
        };
        if next < input.len() && char_is_quote(input[next]) {
            proof {
                let piece = input@.subrange(i + 1, close as int);
                match str_lit(input@, next as int, lang) {
                    Scan::Done(rest, e) => {
                        assert(before + (piece + rest) =~= (before + piece) + rest);
                    },
                    Scan::Fail(x, c) => {},
                }
            }
            i = next;
        } else {
            return Ok((out, next));
        }
    }
}

/// Whether `word` is the three characters `a`, `b`, `c`.
fn word_is(input: &Vec<char>, from: usize, to: usize, a: char, b: char, c: char) -> (r: bool)
    requires
        from <= to <= input@.len(),
    ensures
        r == (input@.subrange(from as int, to as int) == seq![a, b, c]),
{
    if to - from == 3 && input[from] == a && input[from + 1] == b && input[from + 2] == c {
        assert(input@.subrange(from as int, to as int) =~= seq![a, b, c]);
        true
    } else {
        proof {
            let w = input@.subrange(from as int, to as int);
            if w == seq![a, b, c] {
                assert(w.len() == 3);
                assert(w[0] == a && w[1] == b && w[2] == c);
            }
        }
        false
    }
}

/// The token that starts at `pos`.
pub(crate) fn scan_token(input: &Vec<char>, pos: usize, lang: ParserLanguage) -> (r: Scanned<Token>)
    requires
        pos < input@.len(),
    ensures
        match token_at(input@, pos as int, lang) {
            Scan::Done(t, e) => r matches Ok((token, end)) && token@ == t && end == e && pos < end
                <= input@.len(),
            Scan::Fail(x, c) => r matches Err((err, cur)) && err == x && cur == c && pos <= cur
                <= input@.len(),
        },
{
    let _len: usize = input.len();
    let c = input[pos];
    if char_is_ident_start(c) {
        let e = scan_run(input, pos + 1, CharClass::IdentPart);
        let word = string_of(input, pos, e);
        if word_is(input, pos, e, 'n', 'a', 'n') || word_is(input, pos, e, 'i', 'n', 'f') {
            return Ok((Token::FloatLit(word), e));
        }
        return Ok((Token::Ident(word), e));
    }
    match scan_float_end(input, pos) {
        Some(e) => {
            return Ok((Token::FloatLit(string_of(input, pos, e)), e));
        },
        None => {},
    }
    match scan_int_lit(input, pos) {
        Some(Ok((v, e))) => {
            return Ok((Token::IntLit(v), e));
        },
        Some(Err((x, cur))) => {
            return Err((x, cur));
        },
        None => {},
    }
    if char_is_quote(c) {
        return match scan_str_lit(input, pos, lang) {
            Ok((text, e)) => Ok((Token::StrLit(StrLit { escaped: text }), e)),
            Err((x, cur)) => Err((x, cur)),
        };
    }
    if c == ':' && char_at(input, pos + 1, ':') {
        return Ok((Token::DoubleColon, pos + 2));
    }
    if c == '-' && char_at(input, pos + 1, '>') {
        return Ok((Token::FnReturns, pos + 2));
    }
    if char_is_punctuation(c) {
        return Ok((Token::Symbol(c), pos + 1));
    }
    Err((LexerError::IncorrectInput, pos))
}

} // verus!
