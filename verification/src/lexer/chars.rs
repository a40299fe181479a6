//! Character classes of the schema language.

use vstd::prelude::*;

verus! {

/// The classes of characters that the lexer scans runs of.
#[derive(Debug, Clone, Copy, PartialEq, Eq, Structural)]
pub enum CharClass {
    /// Unicode white space
    Whitespace,
    /// `0` to `9`
    Digit,
    /// `0` to `9`, `a` to `f`, `A` to `F`
    HexDigit,
    /// ASCII letters, digits and `_`
    IdentPart,
}

/// White space as Unicode defines it (the property `White_Space`).
pub open spec fn is_whitespace(c: char) -> bool {
    let n = c as u32;
    ||| 0x09 <= n <= 0x0d
    ||| n == 0x20
    ||| n == 0x85
    ||| n == 0xa0
    ||| n == 0x1680
    ||| 0x2000 <= n <= 0x200a
    ||| n == 0x2028
    ||| n == 0x2029
    ||| n == 0x202f
    ||| n == 0x205f
    ||| n == 0x3000
}

/// A decimal digit.
pub open spec fn is_digit(c: char) -> bool {
    '0' <= c <= '9'
}

/// An octal digit.
pub open spec fn is_octal_digit(c: char) -> bool {
    '0' <= c <= '7'
}

/// A hexadecimal digit, in either case.
pub open spec fn is_hex_digit(c: char) -> bool {
    ('0' <= c <= '9') || ('a' <= c <= 'f') || ('A' <= c <= 'F')
}

/// A character that may start an identifier: an ASCII letter or `_`.
pub open spec fn is_ident_start(c: char) -> bool {
    ('a' <= c <= 'z') || ('A' <= c <= 'Z') || c == '_'
}

/// A character that may continue an identifier: an ASCII letter, a digit or `_`.
pub open spec fn is_ident_part(c: char) -> bool {
    is_ident_start(c) || is_digit(c)
}

/// ASCII punctuation: every printable ASCII character that is neither a letter,
/// a digit nor the space.
pub open spec fn is_punctuation(c: char) -> bool {
    let n = c as u32;
    (0x21 <= n <= 0x2f) || (0x3a <= n <= 0x40) || (0x5b <= n <= 0x60) || (0x7b <= n <= 0x7e)
}

/// The value of a hexadecimal digit; 0 for any other character.
pub open spec fn hex_value(c: char) -> nat {
    if '0' <= c <= '9' {
        (c as u32 - '0' as u32) as nat
    } else if 'a' <= c <= 'f' {
        (c as u32 - 'a' as u32 + 10) as nat
    } else if 'A' <= c <= 'F' {
        (c as u32 - 'A' as u32 + 10) as nat
    } else {
        0
    }
}

/// Whether `c` belongs to `class`.
pub open spec fn in_class(class: CharClass, c: char) -> bool {
    match class {
        CharClass::Whitespace => is_whitespace(c),
        CharClass::Digit => is_digit(c),
        CharClass::HexDigit => is_hex_digit(c),
        CharClass::IdentPart => is_ident_part(c),
    }
}

/// The end of the longest run of characters of `class` that starts at `pos`.
pub open spec fn run_end(input: Seq<char>, pos: int, class: CharClass) -> int
    decreases input.len() - pos,
{
    if 0 <= pos < input.len() && in_class(class, input[pos]) {
        run_end(input, pos + 1, class)
    } else {
        pos
    }
}

/// Whether `c` is white space.
pub fn char_is_whitespace(c: char) -> (r: bool)
    ensures
        r == is_whitespace(c),
{
    let n: u32 = c as u32;
    (0x09 <= n && n <= 0x0d) || n == 0x20 || n == 0x85 || n == 0xa0 || n == 0x1680 || (0x2000 <= n
        && n <= 0x200a) || n == 0x2028 || n == 0x2029 || n == 0x202f || n == 0x205f || n == 0x3000
}

/// Whether `c` is a decimal digit.
pub fn char_is_digit(c: char) -> (r: bool)
    ensures
        r == is_digit(c),
{
    '0' <= c && c <= '9'
}

/// Whether `c` is an octal digit.
pub fn char_is_octal_digit(c: char) -> (r: bool)
    ensures
        r == is_octal_digit(c),
{
    '0' <= c && c <= '7'
}

/// Whether `c` is a hexadecimal digit.
pub fn char_is_hex_digit(c: char) -> (r: bool)
    ensures
        r == is_hex_digit(c),
{
    ('0' <= c && c <= '9') || ('a' <= c && c <= 'f') || ('A' <= c && c <= 'F')
}

/// Whether `c` may start an identifier.
pub fn char_is_ident_start(c: char) -> (r: bool)
    ensures
        r == is_ident_start(c),
{
    ('a' <= c && c <= 'z') || ('A' <= c && c <= 'Z') || c == '_'
}

/// Whether `c` may continue an identifier.
pub fn char_is_ident_part(c: char) -> (r: bool)
    ensures
        r == is_ident_part(c),
{
    char_is_ident_start(c) || char_is_digit(c)
}

/// Whether `c` is ASCII punctuation.
pub fn char_is_punctuation(c: char) -> (r: bool)
    ensures
        r == is_punctuation(c),
{
    let n: u32 = c as u32;
    (0x21 <= n && n <= 0x2f) || (0x3a <= n && n <= 0x40) || (0x5b <= n && n <= 0x60) || (0x7b <= n
        && n <= 0x7e)
}

/// The value of the hexadecimal digit `c`.
pub fn char_hex_value(c: char) -> (r: u8)
    requires
        is_hex_digit(c),
    ensures
        r == hex_value(c),
        r < 16,
{
    let n: u32 = c as u32;
    if '0' <= c && c <= '9' {
        (n - 0x30) as u8
    } else if 'a' <= c && c <= 'f' {
        (n - 0x61 + 10) as u8
    } else {
        (n - 0x41 + 10) as u8
    }
}

impl CharClass {
    /// Whether `c` belongs to this class.
    pub fn has(self, c: char) -> (r: bool)
        ensures
            r == in_class(self, c),
    {
        match self {
            CharClass::Whitespace => char_is_whitespace(c),
            CharClass::Digit => char_is_digit(c),
            CharClass::HexDigit => char_is_hex_digit(c),
            CharClass::IdentPart => char_is_ident_part(c),
        }
    }
}

} // verus!
