//! Decoding of string literals.

use vstd::prelude::*;
use vstd::utf8::{decode_utf8, encode_utf8, valid_utf8};
use crate::lexer::grammar::{char_value, CharValue, Scan};
use crate::lexer::scan::scan_char_value;
use crate::lexer::token::{LexerError, StrLit, StrLitDecodeError};
use crate::text::{chars_of, string_from_utf8};

verus! {

/// The bytes that one character or escape of a string literal stands for: an
/// escape names one byte, a character stands for its UTF-8 encoding.
pub open spec fn value_bytes(v: CharValue) -> Seq<u8> {
    match v {
        CharValue::Byte(b) => seq![b],
        CharValue::Char(c) => encode_utf8(seq![c]),
    }
}

/// The bytes that the escaped text `escaped[pos..]` stands for.
pub open spec fn decode_bytes(escaped: Seq<char>, pos: int) -> Result<Seq<u8>, LexerError>
    decreases escaped.len() - pos,
{
    if pos < 0 || pos >= escaped.len() {
        Ok(seq![])
    } else {
        match char_value(escaped, pos) {
            Scan::Fail(e, _) => Err(e),
            Scan::Done(v, n) => match decode_bytes(escaped, n) {
                Err(e) => Err(e),
                Ok(rest) => Ok(value_bytes(v) + rest),
            },
        }
    }
}

/// The text that the escaped text `escaped` stands for: its bytes, read as UTF-8.
pub open spec fn decoded(escaped: Seq<char>) -> Result<Seq<char>, StrLitDecodeError> {
    match decode_bytes(escaped, 0) {
        Err(_) => Err(StrLitDecodeError::OtherError),
        Ok(bytes) => if valid_utf8(bytes) {
            Ok(decode_utf8(bytes))
        } else {
            Err(StrLitDecodeError::FromUtf8Error)
        },
    }
}

/// Whether a text holds no backslash, no line feed and no NUL.
pub open spec fn is_plain(text: Seq<char>) -> bool {
    forall|i: int|
        0 <= i < text.len() ==> text[i] != '\\' && text[i] != '\n' && text[i] != '\0'
}

/// The bytes of a text without escapes, from index `pos` on, are its UTF-8
/// encoding.
pub proof fn lemma_plain_bytes(text: Seq<char>, pos: int)
    requires
        is_plain(text),
        0 <= pos <= text.len(),
    ensures
        decode_bytes(text, pos) == Ok::<Seq<u8>, LexerError>(encode_utf8(text.skip(pos))),
    decreases text.len() - pos,
{
    if pos < text.len() {
        lemma_plain_bytes(text, pos + 1);
        let rest = text.skip(pos);
        assert(rest.drop_first() =~= text.skip(pos + 1));
        assert(rest[0] == text[pos]);
        let one = seq![text[pos]];
        assert(one.drop_first() =~= Seq::<char>::empty());
        assert(encode_utf8(one.drop_first()) =~= Seq::<u8>::empty());
        assert(encode_utf8(one) =~= vstd::utf8::encode_scalar(text[pos] as u32));
    } else {
        assert(text.skip(pos) =~= Seq::<char>::empty());
    }
}

/// A text without escapes stands for itself: a literal that holds no
/// backslash, no line feed and no NUL decodes to the text between its quotes.
pub proof fn law_plain_text_decodes_to_itself(text: Seq<char>)
    requires
        is_plain(text),
    ensures
        decoded(text) == Ok::<Seq<char>, StrLitDecodeError>(text),
{
    lemma_plain_bytes(text, 0);
    assert(text.skip(0) =~= text);
    vstd::utf8::encode_utf8_valid_utf8(text);
    vstd::utf8::encode_utf8_decode_utf8(text);
}

/// Appends the bytes that `v` stands for to `out`.
fn push_value(out: &mut Vec<u8>, v: CharValue)
    ensures
        final(out)@ == old(out)@ + value_bytes(v),
{
    match v {
        CharValue::Byte(b) => {
            out.push(b);
            assert(out@ =~= old(out)@ + seq![b]);
        },
        CharValue::Char(c) => {
            let mut s = String::new();
            s.push(c);
            assert(s@ =~= seq![c]);
            let bytes = s.as_str().as_bytes();
            let mut i: usize = 0;
            while i < bytes.len()
                invariant
                    0 <= i <= bytes@.len(),
                    bytes@ == encode_utf8(seq![c]),
                    out@ == old(out)@ + bytes@.subrange(0, i as int),
                decreases bytes@.len() - i,
            {
                out.push(bytes[i]);
                assert(bytes@.subrange(0, i + 1) =~= bytes@.subrange(0, i as int).push(
                    bytes@[i as int],
                ));
                i = i + 1;
            }
            assert(bytes@.subrange(0, bytes@.len() as int) =~= bytes@);
        },
    }
}

impl StrLit {
    /// The bytes that this literal stands for.
    pub fn decode_bytes(&self) -> (r: Result<Vec<u8>, StrLitDecodeError>)
        ensures
            match decode_bytes(self@, 0) {
                Ok(bytes) => r matches Ok(v) && v@ == bytes,
                Err(_) => r == Err::<Vec<u8>, StrLitDecodeError>(StrLitDecodeError::OtherError),
            },
    {
        let chars = chars_of(self.escaped.as_str());
        let mut out: Vec<u8> = Vec::new();
        let mut i: usize = 0;
        while i < chars.len()
            invariant
                0 <= i <= chars@.len(),
                chars@ == self@,
                match decode_bytes(chars@, i as int) {
                    Ok(rest) => decode_bytes(chars@, 0) == Ok::<Seq<u8>, LexerError>(out@ + rest),
                    Err(e) => decode_bytes(chars@, 0) == Err::<Seq<u8>, LexerError>(e),
                },
            decreases chars@.len() - i,
        {
            match scan_char_value(&chars, i) {
                Err(_) => {
                    return Err(StrLitDecodeError::OtherError);
                },
                Ok((v, n)) => {
                    let ghost before = out@;
                    push_value(&mut out, v);
                    proof {
                        match decode_bytes(chars@, n as int) {
                            Ok(rest) => {
                                assert(before + (value_bytes(v) + rest) =~= out@ + rest);
                            },
                            Err(e) => {},
                        }
                    }
                    i = n;
                },
            }
        }
        assert(out@ + Seq::<u8>::empty() =~= out@);
        Ok(out)
    }

    /// The text that this literal stands for. Fails where an escape is
    /// malformed or the bytes are not UTF-8.
    pub fn decode_utf8(&self) -> (r: Result<String, StrLitDecodeError>)
        ensures
            match decoded(self@) {
                Ok(text) => r matches Ok(s) && s@ == text,
                Err(e) => r == Err::<String, StrLitDecodeError>(e),
            },
    {
        match self.decode_bytes() {
            Err(e) => Err(e),
            Ok(bytes) => match string_from_utf8(bytes) {
                Some(s) => Ok(s),
                None => Err(StrLitDecodeError::FromUtf8Error),
            },
        }
    }

    /// The literal between double quotes, its escapes untouched.
    pub fn quoted(&self) -> (r: String)
        ensures
            r@ == seq!['"'] + self@ + seq!['"'],
    {
        let mut out = String::new();
        out.push('"');
        out.append(self.escaped.as_str());
        out.push('"');
        assert(out@ =~= seq!['"'] + self@ + seq!['"']);
        out
    }
}

} // verus!
