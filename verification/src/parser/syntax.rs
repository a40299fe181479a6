//! The grammar of the schema language, stated over the state of a tokenizer.
//!
//! Every function here takes the state in which a construct is looked for, and
//! returns what was found together with the state after. A construct that is
//! optional yields `Ok(None)` where it does not start at the next token.

use vstd::prelude::*;
use crate::descriptor::{FileDescriptorView, ImportView, ImportVis};
use crate::lexer::grammar::lex;
use crate::lexer::loc::Loc;
use crate::lexer::str_lit::decoded;
use crate::lexer::token::{token_num_lit, NumLitView, ParserLanguage, TokenView};
use crate::lexer::tokenizer::{
    advances, consumed, follows, fresh, ident_expect, ident_if_eq, loc_of, looked, peek,
    remaining, str_lit_expect, symbol_expect, symbol_if_eq, TokenizerErrorView, TokenizerView,
};
use crate::model::{
    ident_display, ident_of, is_integer_type, AttributeView, ConstantView, EnumValueView,
    EnumerationView, FieldTypeView, FieldView, IdentView, MessageView, MethodView, SchemaView,
    ServiceView,
};
use crate::parser::error::ParserErrorView;

verus! {

/// What looking for a construct yields: the construct or an error, and the
/// state of the tokenizer after.
pub type Parsed<T> = (Result<T, ParserErrorView>, TokenizerView);

/// How often a field may occur.
#[derive(Debug, Clone, Copy, PartialEq, Eq, Hash, Structural)]
pub enum Occurrence {
    /// The field may be left out
    Optional,
    /// The field holds any number of values, in order
    Repeated,
    /// The field must be there
    Required,
}

/// An error of the tokenizer as an error of the parser.
pub open spec fn tok<T>(r: (Result<T, TokenizerErrorView>, TokenizerView)) -> Parsed<T> {
    match r.0 {
        Ok(v) => (Ok(v), r.1),
        Err(e) => (Err(ParserErrorView::TokenizerError(e)), r.1),
    }
}

/// The outcome where a construct did not consume anything although it had
/// to. The grammar asks for it wherever it repeats itself, so that every
/// repetition has fewer tokens left. No text leads here: see
/// [`crate::parser::progress::law_parsing_is_never_stuck`].
pub open spec fn stuck<T>(s: TokenizerView) -> Parsed<T> {
    (Err(ParserErrorView::TokenizerError(TokenizerErrorView::InternalError)), s)
}

/// Whether `t` separates the components of a path: `.` or `::`.
pub open spec fn is_path_separator(t: TokenView) -> bool {
    t == TokenView::DoubleColon || t == TokenView::Symbol('.')
}

/// The components that follow the first one of a path, each behind a
/// separator; `acc` is the path so far, its components joined by `.`.
pub open spec fn full_ident_rest(s: TokenizerView, acc: Seq<char>) -> Parsed<Seq<char>>
    decreases remaining(s),
{
    match peek(s) {
        Err(e) => (Err(ParserErrorView::TokenizerError(e)), looked(s)),
        Ok(Some(t)) => if is_path_separator(t) {
            match tok(ident_expect(consumed(s))) {
                (Err(e), s2) => (Err(e), s2),
                (Ok(part), s2) => if advances(s, s2) {
                    full_ident_rest(s2, acc + seq!['.'] + part)
                } else {
                    stuck(s2)
                },
            }
        } else {
            (Ok(acc), looked(s))
        },
        Ok(None) => (Ok(acc), looked(s)),
    }
}

/// A path: identifiers separated by `.` or `::`, as one text joined by `.`.
#[verifier::opaque]
pub open spec fn full_ident_text(s: TokenizerView) -> Parsed<Seq<char>> {
    match tok(ident_expect(s)) {
        (Err(e), s1) => (Err(e), s1),
        (Ok(first), s1) => full_ident_rest(s1, first),
    }
}

/// A path as an identifier: its last component is the name, the others are
/// the namespace.
#[verifier::opaque]
pub open spec fn full_ident(s: TokenizerView) -> Parsed<IdentView> {
    match full_ident_text(s) {
        (Err(e), s1) => (Err(e), s1),
        (Ok(text), s1) => (Ok(ident_of(text)), s1),
    }
}

/// The empty statement `;`, if it comes next.
#[verifier::opaque]
pub open spec fn empty_statement_opt(s: TokenizerView) -> Parsed<Option<()>> {
    match tok(symbol_if_eq(s, ';')) {
        (Err(e), s1) => (Err(e), s1),
        (Ok(true), s1) => (Ok(Some(())), s1),
        (Ok(false), s1) => (Ok(None), s1),
    }
}

/// One of the words `true` and `false`, if it comes next.
#[verifier::opaque]
pub open spec fn bool_lit_opt(s: TokenizerView) -> Parsed<Option<bool>> {
    match tok(ident_if_eq(s, "true"@)) {
        (Err(e), s1) => (Err(e), s1),
        (Ok(true), s1) => (Ok(Some(true)), s1),
        (Ok(false), s1) => match tok(ident_if_eq(s1, "false"@)) {
            (Err(e), s2) => (Err(e), s2),
            (Ok(true), s2) => (Ok(Some(false)), s2),
            (Ok(false), s2) => (Ok(None), s2),
        },
    }
}

/// A numeric literal, which must come next.
#[verifier::opaque]
pub open spec fn num_lit(s: TokenizerView) -> Parsed<NumLitView> {
    match peek(s) {
        Err(e) => (Err(ParserErrorView::TokenizerError(e)), looked(s)),
        Ok(None) => (
            Err(ParserErrorView::TokenizerError(TokenizerErrorView::UnexpectedEof)),
            looked(s),
        ),
        Ok(Some(t)) => match token_num_lit(t) {
            Ok(n) => (Ok(n), consumed(s)),
            Err(e) => (Err(ParserErrorView::LexerError(e)), looked(s)),
        },
    }
}

/// The constant that a numeric literal with a sign in front of it is. The
/// negation of an integer above 2^63 is an overflow; a negated floating-point
/// literal keeps its text behind a `-`.
pub open spec fn signed_constant(n: NumLitView, sign_is_plus: bool) -> Result<
    ConstantView,
    ParserErrorView,
> {
    match n {
        NumLitView::U64(u) => if sign_is_plus {
            Ok(ConstantView::U64(u))
        } else if u <= 0x8000_0000_0000_0000 {
            Ok(ConstantView::I64((-(u as int)) as i64))
        } else {
            Err(ParserErrorView::IntegerOverflow)
        },
        NumLitView::F64(f) => if sign_is_plus {
            Ok(ConstantView::F64(f))
        } else {
            Ok(ConstantView::F64(seq!['-'] + f))
        },
    }
}

/// A numeric literal, which must come next, as a constant with the given sign.
#[verifier::opaque]
pub open spec fn signed_num_lit(s: TokenizerView, sign_is_plus: bool) -> Parsed<
    Option<ConstantView>,
> {
    match num_lit(s) {
        (Err(e), s1) => (Err(e), s1),
        (Ok(n), s1) => match signed_constant(n, sign_is_plus) {
            Ok(c) => (Ok(Some(c)), s1),
            Err(e) => (Err(e), s1),
        },
    }
}

/// A literal, if one comes next: `true` or `false`; a number with an optional
/// sign; or a string literal, which is kept between double quotes. The end of
/// the text is an error here.
#[verifier::opaque]
pub open spec fn lit_opt(s: TokenizerView) -> Parsed<Option<ConstantView>> {
    match bool_lit_opt(s) {
        (Err(e), s1) => (Err(e), s1),
        (Ok(Some(b)), s1) => (Ok(Some(ConstantView::Bool(b))), s1),
        (Ok(None), s1) => match peek(s1) {
            Err(e) => (Err(ParserErrorView::TokenizerError(e)), looked(s1)),
            Ok(None) => (
                Err(ParserErrorView::TokenizerError(TokenizerErrorView::UnexpectedEof)),
                looked(s1),
            ),
            Ok(Some(TokenView::Symbol(c))) => if c == '+' || c == '-' {
                signed_num_lit(consumed(s1), c == '+')
            } else {
                (Ok(None), looked(s1))
            },
            Ok(Some(TokenView::StrLit(text))) => (
                Ok(Some(ConstantView::String(seq!['"'] + text + seq!['"']))),
                consumed(s1),
            ),
            Ok(Some(TokenView::IntLit(_))) => signed_num_lit(looked(s1), true),
            Ok(Some(TokenView::FloatLit(_))) => signed_num_lit(looked(s1), true),
            Ok(Some(_)) => (Ok(None), looked(s1)),
        },
    }
}

/// A constant, which must come next: a literal, or a path that names a constant.
#[verifier::opaque]
pub open spec fn constant(s: TokenizerView) -> Parsed<ConstantView> {
    match lit_opt(s) {
        (Err(e), s1) => (Err(e), s1),
        (Ok(Some(c)), s1) => (Ok(c), s1),
        (Ok(None), s1) => match peek(s1) {
            Ok(Some(TokenView::Ident(_))) => match full_ident(looked(s1)) {
                (Err(e), s2) => (Err(e), s2),
                (Ok(id), s2) => (Ok(ConstantView::Ident(id)), s2),
            },
            Ok(Some(_)) => (Err(ParserErrorView::ExpectConstant), looked(s1)),
            Ok(None) => (
                Err(ParserErrorView::TokenizerError(TokenizerErrorView::UnexpectedEof)),
                looked(s1),
            ),
            Err(e) => (Err(ParserErrorView::TokenizerError(e)), looked(s1)),
        },
    }
}

/// An integer literal, which must come next.
#[verifier::opaque]
pub open spec fn int_lit(s: TokenizerView) -> Parsed<u64> {
    match peek(s) {
        Err(e) => (Err(ParserErrorView::TokenizerError(e)), looked(s)),
        Ok(None) => (
            Err(ParserErrorView::TokenizerError(TokenizerErrorView::UnexpectedEof)),
            looked(s),
        ),
        Ok(Some(TokenView::IntLit(i))) => (Ok(i), consumed(s)),
        Ok(Some(_)) => (Err(ParserErrorView::IncorrectInput), looked(s)),
    }
}

/// The visibility word of an import, if one is there.
#[verifier::opaque]
pub open spec fn import_vis(s: TokenizerView) -> Parsed<ImportVis> {
    match tok(ident_if_eq(s, "weak"@)) {
        (Err(e), s1) => (Err(e), s1),
        (Ok(true), s1) => (Ok(ImportVis::Weak), s1),
        (Ok(false), s1) => match tok(ident_if_eq(s1, "public"@)) {
            (Err(e), s2) => (Err(e), s2),
            (Ok(true), s2) => (Ok(ImportVis::Public), s2),
            (Ok(false), s2) => (Ok(ImportVis::Default), s2),
        },
    }
}

/// `import`, an optional `weak` or `public`, a string literal and `;`, if
/// `import` comes next.
#[verifier::opaque]
pub open spec fn import_opt(s: TokenizerView) -> Parsed<Option<ImportView>> {
    match tok(ident_if_eq(s, "import"@)) {
        (Err(e), s1) => (Err(e), s1),
        (Ok(false), s1) => (Ok(None), s1),
        (Ok(true), s1) => match import_vis(s1) {
            (Err(e), s2) => (Err(e), s2),
            (Ok(vis), s2) => match tok(str_lit_expect(s2)) {
                (Err(e), s3) => (Err(e), s3),
                (Ok(escaped), s3) => match decoded(escaped) {
                    Err(e) => (Err(ParserErrorView::StrLitDecodeError(e)), s3),
                    Ok(path) => match tok(symbol_expect(s3, ';')) {
                        (Err(e), s4) => (Err(e), s4),
                        (Ok(_), s4) => (Ok(Some(ImportView { path, vis })), s4),
                    },
                },
            },
        },
    }
}

/// `package`, a path and `;`, if `package` comes next.
#[verifier::opaque]
pub open spec fn package_opt(s: TokenizerView) -> Parsed<Option<IdentView>> {
    match tok(ident_if_eq(s, "package"@)) {
        (Err(e), s1) => (Err(e), s1),
        (Ok(false), s1) => (Ok(None), s1),
        (Ok(true), s1) => match full_ident(s1) {
            (Err(e), s2) => (Err(e), s2),
            (Ok(package), s2) => match tok(symbol_expect(s2, ';')) {
                (Err(e), s3) => (Err(e), s3),
                (Ok(_), s3) => (Ok(Some(package)), s3),
            },
        },
    }
}

/// The pairs of name and value of an attribute.
pub type Pairs = Seq<(Seq<char>, ConstantView)>;

/// The name under which a value without a name is kept.
pub open spec fn unnamed() -> Seq<char> {
    "_"@
}

/// The values of an attribute, behind its `(` and up to its `)`; `acc` holds
/// the pairs so far.
///
/// Each is a literal, kept under the name `_`; or a name, kept with the value
/// `true`; or a name, `=` and a constant. A comma may follow each.
pub open spec fn attribute_values(s: TokenizerView, acc: Pairs) -> Parsed<Pairs>
    decreases remaining(s),
{
    match tok(symbol_if_eq(s, ')')) {
        (Err(e), s1) => (Err(e), s1),
        (Ok(true), s1) => (Ok(acc), s1),
        (Ok(false), s1) => match lit_opt(s1) {
            (Err(e), s2) => (Err(e), s2),
            (Ok(Some(lit)), s2) => match tok(symbol_if_eq(s2, ',')) {
                (Err(e), s3) => (Err(e), s3),
                (Ok(_), s3) => if advances(s, s3) {
                    attribute_values(s3, acc.push((unnamed(), lit)))
                } else {
                    stuck(s3)
                },
            },
            (Ok(None), s2) => match tok(ident_expect(s2)) {
                (Err(e), s3) => (Err(e), s3),
                (Ok(name), s3) => match tok(symbol_if_eq(s3, ',')) {
                    (Err(e), s4) => (Err(e), s4),
                    (Ok(true), s4) => if advances(s, s4) {
                        attribute_values(s4, acc.push((name, ConstantView::Bool(true))))
                    } else {
                        stuck(s4)
                    },
                    (Ok(false), s4) => match tok(symbol_if_eq(s4, ')')) {
                        (Err(e), s5) => (Err(e), s5),
                        (Ok(true), s5) => (Ok(acc.push((name, ConstantView::Bool(true)))), s5),
                        (Ok(false), s5) => match tok(symbol_expect(s5, '=')) {
                            (Err(e), s6) => (Err(e), s6),
                            (Ok(_), s6) => match constant(s6) {
                                (Err(e), s7) => (Err(e), s7),
                                (Ok(value), s7) => match tok(symbol_if_eq(s7, ',')) {
                                    (Err(e), s8) => (Err(e), s8),
                                    (Ok(_), s8) => if advances(s, s8) {
                                        attribute_values(s8, acc.push((name, value)))
                                    } else {
                                        stuck(s8)
                                    },
                                },
                            },
                        },
                    },
                },
            },
        },
    }
}

/// `@`, a path, an optional list of values in parentheses and an optional `;`,
/// if `@` comes next.
#[verifier::opaque]
pub open spec fn attribute_opt(s: TokenizerView) -> Parsed<Option<AttributeView>> {
    match tok(symbol_if_eq(s, '@')) {
        (Err(e), s1) => (Err(e), s1),
        (Ok(false), s1) => (Ok(None), s1),
        (Ok(true), s1) => match full_ident(s1) {
            (Err(e), s2) => (Err(e), s2),
            (Ok(key), s2) => match tok(symbol_if_eq(s2, '(')) {
                (Err(e), s3) => (Err(e), s3),
                (Ok(false), s3) => (
                    Ok(Some(AttributeView { key, values: seq![] })),
                    symbol_if_eq(s3, ';').1,
                ),
                (Ok(true), s3) => match attribute_values(s3, seq![]) {
                    (Err(e), s4) => (Err(e), s4),
                    (Ok(values), s4) => (
                        Ok(Some(AttributeView { key, values })),
                        symbol_if_eq(s4, ';').1,
                    ),
                },
            },
        },
    }
}

/// The key of the attribute that an `option` statement becomes.
pub open spec fn option_key() -> IdentView {
    IdentView { namespace: None, name: "option"@ }
}

/// `option`, a path, `=`, a constant and `;`, if `option` comes next. It is
/// kept as an attribute with the key `option` and one pair.
#[verifier::opaque]
pub open spec fn option_opt(s: TokenizerView) -> Parsed<Option<AttributeView>> {
    match tok(ident_if_eq(s, "option"@)) {
        (Err(e), s1) => (Err(e), s1),
        (Ok(false), s1) => (Ok(None), s1),
        (Ok(true), s1) => match full_ident(s1) {
            (Err(e), s2) => (Err(e), s2),
            (Ok(name), s2) => match tok(symbol_expect(s2, '=')) {
                (Err(e), s3) => (Err(e), s3),
                (Ok(_), s3) => match constant(s3) {
                    (Err(e), s4) => (Err(e), s4),
                    (Ok(value), s4) => match tok(symbol_expect(s4, ';')) {
                        (Err(e), s5) => (Err(e), s5),
                        (Ok(_), s5) => (
                            Ok(
                                Some(
                                    AttributeView {
                                        key: option_key(),
                                        values: seq![(ident_display(name), value)],
                                    },
                                ),
                            ),
                            s5,
                        ),
                    },
                },
            },
        },
    }
}

/// The attribute that records where a declaration stands.
pub open spec fn source_attribute(loc: Loc) -> AttributeView {
    AttributeView {
        key: IdentView { namespace: None, name: "_source"@ },
        values: seq![
            ("line"@, ConstantView::U64(loc.line as u64)),
            ("col"@, ConstantView::U64(loc.col as u64)),
        ],
    }
}

/// The label that a word is, if it is one.
pub open spec fn label_of(word: Seq<char>) -> Option<Occurrence> {
    if word == "optional"@ {
        Some(Occurrence::Optional)
    } else if word == "required"@ {
        Some(Occurrence::Required)
    } else if word == "repeated"@ {
        Some(Occurrence::Repeated)
    } else {
        None
    }
}

/// One of the labels `optional`, `required` and `repeated`, if it comes next.
/// Where none does, the tokenizer is left as it was.
#[verifier::opaque]
pub open spec fn label(s: TokenizerView) -> Parsed<Option<Occurrence>> {
    match peek(s) {
        Err(e) => (Err(ParserErrorView::TokenizerError(e)), s),
        Ok(Some(TokenView::Ident(word))) => match label_of(word) {
            Some(l) => (Ok(Some(l)), consumed(s)),
            None => (Ok(None), s),
        },
        Ok(_) => (Ok(None), s),
    }
}

/// The type that a keyword names, if it names one.
pub open spec fn simple_type(word: Seq<char>) -> Option<FieldTypeView> {
    if word == "int32"@ {
        Some(FieldTypeView::Int32)
    } else if word == "int64"@ {
        Some(FieldTypeView::Int64)
    } else if word == "uint32"@ {
        Some(FieldTypeView::Uint32)
    } else if word == "uint64"@ {
        Some(FieldTypeView::Uint64)
    } else if word == "int8"@ {
        Some(FieldTypeView::Int8)
    } else if word == "uint8"@ {
        Some(FieldTypeView::Uint8)
    } else if word == "bool"@ {
        Some(FieldTypeView::Bool)
    } else if word == "string"@ {
        Some(FieldTypeView::String)
    } else if word == "bytes"@ {
        Some(FieldTypeView::Bytes)
    } else if word == "float"@ {
        Some(FieldTypeView::Float32)
    } else if word == "float32"@ {
        Some(FieldTypeView::Float32)
    } else if word == "float64"@ {
        Some(FieldTypeView::Float64)
    } else if word == "double"@ {
        Some(FieldTypeView::Float64)
    } else {
        None
    }
}

/// Whether a type may be the key type of a map: an integer type or `String`.
pub open spec fn is_map_key_type(t: FieldTypeView) -> bool {
    is_integer_type(t) || t is String
}

/// A type, which must come next: a keyword of [`simple_type`]; a map; an
/// array in brackets; or a path that names a message or an enumeration.
pub open spec fn field_type(s: TokenizerView) -> Parsed<FieldTypeView>
    decreases remaining(s), 1int,
{
    match peek(s) {
        Err(e) => (Err(ParserErrorView::TokenizerError(e)), looked(s)),
        Ok(Some(TokenView::Ident(word))) => match simple_type(word) {
            Some(t) => (Ok(t), consumed(s)),
            None => match map_field_type_opt(looked(s)) {
                (Err(e), s1) => (Err(e), s1),
                (Ok(Some(t)), s1) => (Ok(t), s1),
                (Ok(None), s1) => match full_ident(s1) {
                    (Err(e), s2) => (Err(e), s2),
                    (Ok(id), s2) => (Ok(FieldTypeView::ObjectOrEnum(id)), s2),
                },
            },
        },
        Ok(_) => match array_field_type_opt(looked(s)) {
            (Err(e), s1) => (Err(e), s1),
            (Ok(Some(t)), s1) => (Ok(t), s1),
            (Ok(None), s1) => match full_ident(s1) {
                (Err(e), s2) => (Err(e), s2),
                (Ok(id), s2) => (Ok(FieldTypeView::ObjectOrEnum(id)), s2),
            },
        },
    }
}

/// `map`, `<`, a key type, `,`, a value type and `>`, if `map` comes next.
/// A key type that is neither an integer type nor `String` is an error.
pub open spec fn map_field_type_opt(s: TokenizerView) -> Parsed<Option<FieldTypeView>>
    decreases remaining(s), 0int,
{
    match tok(ident_if_eq(s, "map"@)) {
        (Err(e), s1) => (Err(e), s1),
        (Ok(false), s1) => (Ok(None), s1),
        (Ok(true), s1) => match tok(symbol_expect(s1, '<')) {
            (Err(e), s2) => (Err(e), s2),
            (Ok(_), s2) => if advances(s, s2) {
                match field_type(s2) {
                    (Err(e), s3) => (Err(e), s3),
                    (Ok(key), s3) => if !is_map_key_type(key) {
                        (Err(ParserErrorView::MapKeyType), s3)
                    } else {
                        match tok(symbol_expect(s3, ',')) {
                            (Err(e), s4) => (Err(e), s4),
                            (Ok(_), s4) => if advances(s, s4) {
                                match field_type(s4) {
                                    (Err(e), s5) => (Err(e), s5),
                                    (Ok(value), s5) => match tok(symbol_expect(s5, '>')) {
                                        (Err(e), s6) => (Err(e), s6),
                                        (Ok(_), s6) => (
                                            Ok(
                                                Some(
                                                    FieldTypeView::Mapping(
                                                        Box::new(key),
                                                        Box::new(value),
                                                    ),
                                                ),
                                            ),
                                            s6,
                                        ),
                                    },
                                }
                            } else {
                                stuck(s4)
                            },
                        }
                    },
                }
            } else {
                stuck(s2)
            },
        },
    }
}

/// `[`, an item type and `]`, if `[` comes next.
pub open spec fn array_field_type_opt(s: TokenizerView) -> Parsed<Option<FieldTypeView>>
    decreases remaining(s), 0int,
{
    match tok(symbol_if_eq(s, '[')) {
        (Err(e), s1) => (Err(e), s1),
        (Ok(false), s1) => (Ok(None), s1),
        (Ok(true), s1) => if advances(s, s1) {
            match field_type(s1) {
                (Err(e), s2) => (Err(e), s2),
                (Ok(item), s2) => match tok(symbol_expect(s2, ']')) {
                    (Err(e), s3) => (Err(e), s3),
                    (Ok(_), s3) => (Ok(Some(FieldTypeView::Array(Box::new(item)))), s3),
                },
            }
        } else {
            stuck(s1)
        },
    }
}

/// The number of a field, which must come next: an integer literal. A
/// number that does not fit 32 bits is an overflow.
#[verifier::opaque]
pub open spec fn field_number(s: TokenizerView) -> Parsed<u32> {
    match int_lit(s) {
        (Err(e), s1) => (Err(e), s1),
        (Ok(i), s1) => if i <= u32::MAX {
            (Ok(i as u32), s1)
        } else {
            (Err(ParserErrorView::IntegerOverflow), s1)
        },
    }
}

/// `=` and a number, or nothing, which stands for the number 0.
#[verifier::opaque]
pub open spec fn field_number_opt(s: TokenizerView) -> Parsed<u32> {
    match tok(symbol_if_eq(s, '=')) {
        (Err(e), s1) => (Err(e), s1),
        (Ok(true), s1) => field_number(s1),
        (Ok(false), s1) => (Ok(0u32), s1),
    }
}

/// The type of a field with the label `occurrence` and the type `t` as
/// written: `repeated` makes an array of it, and is an error before an array.
pub open spec fn labelled_type(occurrence: Option<Occurrence>, t: FieldTypeView) -> Result<
    FieldTypeView,
    ParserErrorView,
> {
    if occurrence == Some(Occurrence::Repeated) {
        if t is Array {
            Err(ParserErrorView::RepeatedArray)
        } else {
            Ok(FieldTypeView::Array(Box::new(t)))
        }
    } else {
        Ok(t)
    }
}

/// A field, which must come next: an optional label, a type, a name, an
/// optional `?`, an optional `=` with a number, and `;`. The field is optional
/// where it has the label `optional` or the `?`. It records where it stands.
#[verifier::opaque]
pub open spec fn field(s: TokenizerView) -> Parsed<FieldView> {
    let s0 = looked(s);
    match label(s0) {
        (Err(e), s1) => (Err(e), s1),
        (Ok(occurrence), s1) => match field_type(s1) {
            (Err(e), s2) => (Err(e), s2),
            (Ok(t), s2) => match labelled_type(occurrence, t) {
                Err(e) => (Err(e), s2),
                Ok(typ) => match tok(ident_expect(s2)) {
                    (Err(e), s3) => (Err(e), s3),
                    (Ok(name), s3) => match tok(symbol_if_eq(s3, '?')) {
                        (Err(e), s4) => (Err(e), s4),
                        (Ok(mark), s4) => match field_number_opt(s4) {
                            (Err(e), s5) => (Err(e), s5),
                            (Ok(number), s5) => match tok(symbol_expect(s5, ';')) {
                                (Err(e), s6) => (Err(e), s6),
                                (Ok(_), s6) => (
                                    Ok(
                                        FieldView {
                                            name,
                                            optional: mark || occurrence == Some(
                                                Occurrence::Optional,
                                            ),
                                            typ,
                                            number,
                                            attributes: seq![source_attribute(loc_of(s0))],
                                        },
                                    ),
                                    s6,
                                ),
                            },
                        },
                    },
                },
            },
        },
    }
}

/// The number of an enumeration value written as `lit`, behind a `-` where
/// `minus` holds. A number that does not fit 32 bits with its sign is an
/// overflow.
pub open spec fn enum_number(minus: bool, lit: u64) -> Result<i32, ParserErrorView> {
    if minus {
        if lit <= 0x8000_0000 {
            Ok((-(lit as int)) as i32)
        } else {
            Err(ParserErrorView::IntegerOverflow)
        }
    } else {
        if lit <= 0x7fff_ffff {
            Ok(lit as i32)
        } else {
            Err(ParserErrorView::IntegerOverflow)
        }
    }
}

/// The number of an enumeration value, which must come next: an optional `-`
/// and an integer literal.
#[verifier::opaque]
pub open spec fn enum_value(s: TokenizerView) -> Parsed<i32> {
    match tok(symbol_if_eq(s, '-')) {
        (Err(e), s1) => (Err(e), s1),
        (Ok(minus), s1) => match int_lit(s1) {
            (Err(e), s2) => (Err(e), s2),
            (Ok(lit), s2) => match enum_number(minus, lit) {
                Err(e) => (Err(e), s2),
                Ok(n) => (Ok(n), s2),
            },
        },
    }
}

/// A value of an enumeration, which must come next: a name, `=` and a number.
#[verifier::opaque]
pub open spec fn enum_field(s: TokenizerView) -> Parsed<EnumValueView> {
    match tok(ident_expect(s)) {
        (Err(e), s1) => (Err(e), s1),
        (Ok(name), s1) => match tok(symbol_expect(s1, '=')) {
            (Err(e), s2) => (Err(e), s2),
            (Ok(_), s2) => match enum_value(s2) {
                (Err(e), s3) => (Err(e), s3),
                (Ok(number), s3) => (Ok(EnumValueView { name, number, attributes: seq![] }), s3),
            },
        },
    }
}

/// The body of an enumeration up to its `}`, which is left in place: empty
/// statements, `option` statements, which join the attributes, and values.
pub open spec fn enum_items(s: TokenizerView, acc: EnumerationView) -> Parsed<EnumerationView>
    decreases remaining(s),
{
    match peek(s) {
        Err(e) => (Err(ParserErrorView::TokenizerError(e)), looked(s)),
        Ok(Some(TokenView::Symbol('}'))) => (Ok(acc), looked(s)),
        Ok(_) => match empty_statement_opt(looked(s)) {
            (Err(e), s1) => (Err(e), s1),
            (Ok(Some(_)), s1) => if advances(s, s1) {
                enum_items(s1, acc)
            } else {
                stuck(s1)
            },
            (Ok(None), s1) => match option_opt(s1) {
                (Err(e), s2) => (Err(e), s2),
                (Ok(Some(attr)), s2) => if advances(s, s2) {
                    enum_items(
                        s2,
                        EnumerationView { attributes: acc.attributes.push(attr), ..acc },
                    )
                } else {
                    stuck(s2)
                },
                (Ok(None), s2) => match enum_field(s2) {
                    (Err(e), s3) => (Err(e), s3),
                    (Ok(value), s3) => if advances(s, s3) {
                        enum_items(s3, EnumerationView { values: acc.values.push(value), ..acc })
                    } else {
                        stuck(s3)
                    },
                },
            },
        },
    }
}

/// The `}` that closes the body of an enumeration, behind its items.
pub open spec fn enum_close(p: Parsed<EnumerationView>) -> Parsed<Option<EnumerationView>> {
    match p {
        (Err(e), s) => (Err(e), s),
        (Ok(enumeration), s) => match tok(symbol_expect(s, '}')) {
            (Err(e), s1) => (Err(e), s1),
            (Ok(_), s1) => (Ok(Some(enumeration)), s1),
        },
    }
}

/// `enum`, a name and a body in braces, if `enum` comes next. The enumeration
/// records where it stands.
#[verifier::opaque]
pub open spec fn enum_opt(s: TokenizerView) -> Parsed<Option<EnumerationView>> {
    let s0 = looked(s);
    match tok(ident_if_eq(s0, "enum"@)) {
        (Err(e), s1) => (Err(e), s1),
        (Ok(false), s1) => (Ok(None), s1),
        (Ok(true), s1) => match tok(ident_expect(s1)) {
            (Err(e), s2) => (Err(e), s2),
            (Ok(name), s2) => match tok(symbol_expect(s2, '{')) {
                (Err(e), s3) => (Err(e), s3),
                (Ok(_), s3) => enum_close(
                    enum_items(
                        s3,
                        EnumerationView {
                            name,
                            values: seq![],
                            attributes: seq![source_attribute(loc_of(s0))],
                        },
                    ),
                ),
            },
        },
    }
}

/// Whether a field of `fields` has the number `number`.
pub open spec fn number_in_use(fields: Seq<FieldView>, number: u32) -> bool {
    exists|i: int| 0 <= i < fields.len() && (#[trigger] fields[i]).number == number
}

/// The field `f` as it joins a message that has the fields `fields` and the
/// pending attributes `pending`: the attributes join its own; the number 0
/// becomes the field's position, counted from 1; and its number must not be
/// that of an earlier field.
pub open spec fn placed_field(f: FieldView, fields: Seq<FieldView>, pending: Seq<AttributeView>)
    -> Result<FieldView, ParserErrorView> {
    if f.number == 0 && fields.len() + 1 > u32::MAX {
        Err(ParserErrorView::IntegerOverflow)
    } else {
        let number = if f.number == 0 {
            (fields.len() + 1) as u32
        } else {
            f.number
        };
        if number_in_use(fields, number) {
            Err(ParserErrorView::DuplicateFieldNumber(number))
        } else {
            Ok(FieldView { number, attributes: f.attributes + pending, ..f })
        }
    }
}

/// The body of a message up to its `}`, which is left in place. `acc` is the
/// message so far, `pending` the attributes that wait for the declaration
/// that they belong to.
///
/// Empty statements; messages and enumerations, which take the pending
/// attributes; `option` statements, which join the message's attributes;
/// attributes, which become pending; and fields, which take the pending
/// attributes. Attributes that are still pending at the `}` are an error.
pub open spec fn message_items(s: TokenizerView, acc: MessageView, pending: Seq<AttributeView>)
    -> Parsed<MessageView>
    decreases remaining(s), 1int,
{
    match peek(s) {
        Err(e) => (Err(ParserErrorView::TokenizerError(e)), looked(s)),
        Ok(Some(TokenView::Symbol('}'))) => if pending.len() > 0 {
            (Err(ParserErrorView::DanglingAttributes), looked(s))
        } else {
            (Ok(acc), looked(s))
        },
        Ok(_) => match empty_statement_opt(looked(s)) {
            (Err(e), s1) => (Err(e), s1),
            (Ok(Some(_)), s1) => if advances(s, s1) {
                message_items(s1, acc, pending)
            } else {
                stuck(s1)
            },
            (Ok(None), s1) => if !follows(s, s1) {
                stuck(s1)
            } else {
                match message_opt(s1) {
                    (Err(e), s2) => (Err(e), s2),
                    (Ok(Some(m)), s2) => if advances(s, s2) {
                        message_items(
                            s2,
                            MessageView {
                                messages: acc.messages.push(
                                    MessageView { attributes: m.attributes + pending, ..m },
                                ),
                                ..acc
                            },
                            seq![],
                        )
                    } else {
                        stuck(s2)
                    },
                    (Ok(None), s2) => match enum_opt(s2) {
                        (Err(e), s3) => (Err(e), s3),
                        (Ok(Some(en)), s3) => if advances(s, s3) {
                            message_items(
                                s3,
                                MessageView {
                                    enums: acc.enums.push(
                                        EnumerationView {
                                            attributes: en.attributes + pending,
                                            ..en
                                        },
                                    ),
                                    ..acc
                                },
                                seq![],
                            )
                        } else {
                            stuck(s3)
                        },
                        (Ok(None), s3) => match option_opt(s3) {
                            (Err(e), s4) => (Err(e), s4),
                            (Ok(Some(option)), s4) => if advances(s, s4) {
                                message_items(
                                    s4,
                                    MessageView {
                                        attributes: acc.attributes.push(option),
                                        ..acc
                                    },
                                    pending,
                                )
                            } else {
                                stuck(s4)
                            },
                            (Ok(None), s4) => match attribute_opt(s4) {
                                (Err(e), s5) => (Err(e), s5),
                                (Ok(Some(attr)), s5) => if advances(s, s5) {
                                    message_items(s5, acc, pending.push(attr))
                                } else {
                                    stuck(s5)
                                },
                                (Ok(None), s5) => match field(s5) {
                                    (Err(e), s6) => (Err(e), s6),
                                    (Ok(f), s6) => match placed_field(f, acc.fields, pending) {
                                        Err(e) => (Err(e), s6),
                                        Ok(placed) => if advances(s, s6) {
                                            message_items(
                                                s6,
                                                MessageView {
                                                    fields: acc.fields.push(placed),
                                                    ..acc
                                                },
                                                seq![],
                                            )
                                        } else {
                                            stuck(s6)
                                        },
                                    },
                                },
                            },
                        },
                    },
                }
            },
        },
    }
}

/// A message without a name and without fields, which records that it
/// stands at `loc`.
pub open spec fn empty_message(loc: Loc) -> MessageView {
    MessageView {
        name: IdentView { namespace: None, name: seq![] },
        fields: seq![],
        messages: seq![],
        enums: seq![],
        attributes: seq![source_attribute(loc)],
    }
}

/// The `}` that closes the body of a message, behind its items.
pub open spec fn message_close(p: Parsed<MessageView>) -> Parsed<MessageView> {
    match p {
        (Err(e), s) => (Err(e), s),
        (Ok(m), s) => match tok(symbol_expect(s, '}')) {
            (Err(e), s1) => (Err(e), s1),
            (Ok(_), s1) => (Ok(m), s1),
        },
    }
}

/// The body of a message, which must come next: `{`, the items and `}`. The
/// message records where its `{` stands.
pub open spec fn message_body(s: TokenizerView) -> Parsed<MessageView>
    decreases remaining(s), 2int,
{
    let s0 = looked(s);
    match tok(symbol_expect(s0, '{')) {
        (Err(e), s1) => (Err(e), s1),
        (Ok(_), s1) => if advances(s, s1) {
            message_close(message_items(s1, empty_message(loc_of(s0)), seq![]))
        } else {
            stuck(s1)
        },
    }
}

/// `message`, a name and a body, if `message` comes next.
pub open spec fn message_opt(s: TokenizerView) -> Parsed<Option<MessageView>>
    decreases remaining(s), 0int,
{
    match tok(ident_if_eq(s, "message"@)) {
        (Err(e), s1) => (Err(e), s1),
        (Ok(false), s1) => (Ok(None), s1),
        (Ok(true), s1) => match tok(ident_expect(s1)) {
            (Err(e), s2) => (Err(e), s2),
            (Ok(name), s2) => if advances(s, s2) {
                match message_body(s2) {
                    (Err(e), s3) => (Err(e), s3),
                    (Ok(m), s3) => (
                        Ok(Some(MessageView { name: IdentView { namespace: None, name }, ..m })),
                        s3,
                    ),
                }
            } else {
                stuck(s2)
            },
        },
    }
}

/// The argument of a method, behind its `(`: `)`, or a type and `)`.
#[verifier::opaque]
pub open spec fn rpc_input(s: TokenizerView) -> Parsed<Option<FieldTypeView>> {
    match tok(symbol_if_eq(s, ')')) {
        (Err(e), s1) => (Err(e), s1),
        (Ok(true), s1) => (Ok(None), s1),
        (Ok(false), s1) => match field_type(s1) {
            (Err(e), s2) => (Err(e), s2),
            (Ok(t), s2) => match tok(symbol_expect(s2, ')')) {
                (Err(e), s3) => (Err(e), s3),
                (Ok(_), s3) => (Ok(Some(t)), s3),
            },
        },
    }
}

/// Whether the result of a method is announced: `->` or `returns`, if one of
/// them comes next.
#[verifier::opaque]
pub open spec fn rpc_returns(s: TokenizerView) -> Parsed<bool> {
    match peek(s) {
        Err(e) => (Err(ParserErrorView::TokenizerError(e)), looked(s)),
        Ok(Some(TokenView::FnReturns)) => (Ok(true), consumed(s)),
        Ok(_) => tok(ident_if_eq(looked(s), "returns"@)),
    }
}

/// The result of a method, behind `->` or `returns`: `()`, a type in
/// parentheses, or a type.
#[verifier::opaque]
pub open spec fn rpc_output(s: TokenizerView) -> Parsed<Option<FieldTypeView>> {
    match tok(symbol_if_eq(s, '(')) {
        (Err(e), s1) => (Err(e), s1),
        (Ok(true), s1) => rpc_input(s1),
        (Ok(false), s1) => match field_type(s1) {
            (Err(e), s2) => (Err(e), s2),
            (Ok(t), s2) => (Ok(Some(t)), s2),
        },
    }
}

/// `rpc`, a name, the argument in parentheses, an optional result behind `->`
/// or `returns`, and `;`, if `rpc` comes next.
#[verifier::opaque]
pub open spec fn rpc_opt(s: TokenizerView) -> Parsed<Option<MethodView>> {
    match tok(ident_if_eq(s, "rpc"@)) {
        (Err(e), s1) => (Err(e), s1),
        (Ok(false), s1) => (Ok(None), s1),
        (Ok(true), s1) => match tok(ident_expect(s1)) {
            (Err(e), s2) => (Err(e), s2),
            (Ok(name), s2) => match tok(symbol_expect(s2, '(')) {
                (Err(e), s3) => (Err(e), s3),
                (Ok(_), s3) => match rpc_input(s3) {
                    (Err(e), s4) => (Err(e), s4),
                    (Ok(input_type), s4) => match rpc_returns(s4) {
                        (Err(e), s5) => (Err(e), s5),
                        (Ok(announced), s5) => match (if announced {
                            rpc_output(s5)
                        } else {
                            (Ok(None), s5)
                        }) {
                            (Err(e), s6) => (Err(e), s6),
                            (Ok(output_type), s6) => match tok(symbol_expect(s6, ';')) {
                                (Err(e), s7) => (Err(e), s7),
                                (Ok(_), s7) => (
                                    Ok(
                                        Some(
                                            MethodView {
                                                name,
                                                input_type,
                                                output_type,
                                                attributes: seq![],
                                            },
                                        ),
                                    ),
                                    s7,
                                ),
                            },
                        },
                    },
                },
            },
        },
    }
}

/// The body of a service up to its `}`, which is left in place: methods,
/// which take the pending attributes; attributes, which become pending; and
/// empty statements. Anything else is an error, and so are attributes that
/// are still pending at the `}`.
pub open spec fn service_items(s: TokenizerView, acc: Seq<MethodView>, pending: Seq<AttributeView>)
    -> Parsed<Seq<MethodView>>
    decreases remaining(s),
{
    match peek(s) {
        Err(e) => (Err(ParserErrorView::TokenizerError(e)), looked(s)),
        Ok(Some(TokenView::Symbol('}'))) => if pending.len() > 0 {
            (Err(ParserErrorView::DanglingAttributes), looked(s))
        } else {
            (Ok(acc), looked(s))
        },
        Ok(_) => match rpc_opt(looked(s)) {
            (Err(e), s1) => (Err(e), s1),
            (Ok(Some(m)), s1) => if advances(s, s1) {
                service_items(
                    s1,
                    acc.push(MethodView { attributes: m.attributes + pending, ..m }),
                    seq![],
                )
            } else {
                stuck(s1)
            },
            (Ok(None), s1) => match attribute_opt(s1) {
                (Err(e), s2) => (Err(e), s2),
                (Ok(Some(attr)), s2) => if advances(s, s2) {
                    service_items(s2, acc, pending.push(attr))
                } else {
                    stuck(s2)
                },
                (Ok(None), s2) => match empty_statement_opt(s2) {
                    (Err(e), s3) => (Err(e), s3),
                    (Ok(Some(_)), s3) => if advances(s, s3) {
                        service_items(s3, acc, pending)
                    } else {
                        stuck(s3)
                    },
                    (Ok(None), s3) => (Err(ParserErrorView::IncorrectInput), s3),
                },
            },
        },
    }
}

/// The `}` that closes the body of a service, behind its items: the service
/// with the name `name`, which stands at `loc`.
pub open spec fn service_close(p: Parsed<Seq<MethodView>>, name: Seq<char>, loc: Loc) -> Parsed<
    Option<ServiceView>,
> {
    match p {
        (Err(e), s) => (Err(e), s),
        (Ok(methods), s) => match tok(symbol_expect(s, '}')) {
            (Err(e), s1) => (Err(e), s1),
            (Ok(_), s1) => (
                Ok(
                    Some(
                        ServiceView {
                            name: IdentView { namespace: None, name },
                            methods,
                            attributes: seq![source_attribute(loc)],
                            schema: None,
                            schema_id: None,
                        },
                    ),
                ),
                s1,
            ),
        },
    }
}

/// `service`, a name and a body in braces, if `service` comes next. The
/// service records where it stands.
#[verifier::opaque]
pub open spec fn service_opt(s: TokenizerView) -> Parsed<Option<ServiceView>> {
    let s0 = looked(s);
    match tok(ident_if_eq(s0, "service"@)) {
        (Err(e), s1) => (Err(e), s1),
        (Ok(false), s1) => (Ok(None), s1),
        (Ok(true), s1) => match tok(ident_expect(s1)) {
            (Err(e), s2) => (Err(e), s2),
            (Ok(name), s2) => match tok(symbol_expect(s2, '{')) {
                (Err(e), s3) => (Err(e), s3),
                (Ok(_), s3) => service_close(
                    service_items(s3, seq![], seq![]),
                    name,
                    loc_of(s0),
                ),
            },
        },
    }
}

/// What the statements of a file have declared so far.
pub struct FileItems {
    pub imports: Seq<ImportView>,
    pub package: Option<IdentView>,
    pub messages: Seq<MessageView>,
    pub enums: Seq<EnumerationView>,
    pub attributes: Seq<AttributeView>,
    pub services: Seq<ServiceView>,
    /// The attributes that wait for the declaration that they belong to
    pub pending: Seq<AttributeView>,
}

/// A file in which nothing has been declared.
pub open spec fn no_items() -> FileItems {
    FileItems {
        imports: seq![],
        package: None,
        messages: seq![],
        enums: seq![],
        attributes: seq![],
        services: seq![],
        pending: seq![],
    }
}

/// The statements of a file, to its end; `acc` holds what was declared so far.
///
/// In any order: imports; the `package` statement, of which a second one is
/// an error; attributes, which become pending; `option` statements, which
/// join the attributes of the schema; messages, enumerations and services,
/// which take the pending attributes; and empty statements. Anything else is
/// an error. So are attributes that are pending before an import, a
/// `package` statement, an `option` statement, an empty statement or the end
/// of the file.
pub open spec fn file_items(s: TokenizerView, acc: FileItems) -> Parsed<FileItems>
    decreases remaining(s),
{
    match peek(s) {
        Err(e) => (Err(ParserErrorView::TokenizerError(e)), looked(s)),
        Ok(None) => if acc.pending.len() > 0 {
            (Err(ParserErrorView::DanglingAttributes), looked(s))
        } else {
            (Ok(acc), looked(s))
        },
        Ok(Some(_)) => match import_opt(looked(s)) {
            (Err(e), s1) => (Err(e), s1),
            (Ok(Some(import)), s1) => if acc.pending.len() > 0 {
                (Err(ParserErrorView::DanglingAttributes), s1)
            } else if advances(s, s1) {
                file_items(s1, FileItems { imports: acc.imports.push(import), ..acc })
            } else {
                stuck(s1)
            },
            (Ok(None), s1) => match package_opt(s1) {
                (Err(e), s2) => (Err(e), s2),
                (Ok(Some(package)), s2) => if acc.package is Some {
                    (Err(ParserErrorView::OnlyOnePackage), s2)
                } else if acc.pending.len() > 0 {
                    (Err(ParserErrorView::DanglingAttributes), s2)
                } else if advances(s, s2) {
                    file_items(s2, FileItems { package: Some(package), ..acc })
                } else {
                    stuck(s2)
                },
                (Ok(None), s2) => match attribute_opt(s2) {
                    (Err(e), s3) => (Err(e), s3),
                    (Ok(Some(attr)), s3) => if advances(s, s3) {
                        file_items(s3, FileItems { pending: acc.pending.push(attr), ..acc })
                    } else {
                        stuck(s3)
                    },
                    (Ok(None), s3) => match option_opt(s3) {
                        (Err(e), s4) => (Err(e), s4),
                        (Ok(Some(option)), s4) => if acc.pending.len() > 0 {
                            (Err(ParserErrorView::DanglingAttributes), s4)
                        } else if advances(s, s4) {
                            file_items(
                                s4,
                                FileItems { attributes: acc.attributes.push(option), ..acc },
                            )
                        } else {
                            stuck(s4)
                        },
                        (Ok(None), s4) => match message_opt(s4) {
                            (Err(e), s5) => (Err(e), s5),
                            (Ok(Some(m)), s5) => if advances(s, s5) {
                                file_items(
                                    s5,
                                    FileItems {
                                        messages: acc.messages.push(
                                            MessageView {
                                                attributes: m.attributes + acc.pending,
                                                ..m
                                            },
                                        ),
                                        pending: seq![],
                                        ..acc
                                    },
                                )
                            } else {
                                stuck(s5)
                            },
                            (Ok(None), s5) => match enum_opt(s5) {
                                (Err(e), s6) => (Err(e), s6),
                                (Ok(Some(en)), s6) => if advances(s, s6) {
                                    file_items(
                                        s6,
                                        FileItems {
                                            enums: acc.enums.push(
                                                EnumerationView {
                                                    attributes: en.attributes + acc.pending,
                                                    ..en
                                                },
                                            ),
                                            pending: seq![],
                                            ..acc
                                        },
                                    )
                                } else {
                                    stuck(s6)
                                },
                                (Ok(None), s6) => match service_opt(s6) {
                                    (Err(e), s7) => (Err(e), s7),
                                    (Ok(Some(service)), s7) => if advances(s, s7) {
                                        file_items(
                                            s7,
                                            FileItems {
                                                services: acc.services.push(
                                                    ServiceView {
                                                        attributes: service.attributes
                                                            + acc.pending,
                                                        ..service
                                                    },
                                                ),
                                                pending: seq![],
                                                ..acc
                                            },
                                        )
                                    } else {
                                        stuck(s7)
                                    },
                                    (Ok(None), s7) => match empty_statement_opt(s7) {
                                        (Err(e), s8) => (Err(e), s8),
                                        (Ok(Some(_)), s8) => if acc.pending.len() > 0 {
                                            (Err(ParserErrorView::DanglingAttributes), s8)
                                        } else if advances(s, s8) {
                                            file_items(s8, acc)
                                        } else {
                                            stuck(s8)
                                        },
                                        (Ok(None), s8) => (
                                            Err(ParserErrorView::IncorrectInput),
                                            s8,
                                        ),
                                    },
                                },
                            },
                        },
                    },
                },
            },
        },
    }
}

/// The statements of a whole file, of which one must be the `package`
/// statement: the file as it is declared. The services carry no derived
/// fields, and the schema does not record the version of the parser: both
/// come with sealing, see [`crate::hashing::sealed`].
#[verifier::opaque]
pub open spec fn statements(s: TokenizerView) -> Parsed<FileDescriptorView> {
    file_close(file_items(s, no_items()))
}

/// The file that the statements of a whole file declare. A file without a
/// `package` statement is an error.
pub open spec fn file_close(p: Parsed<FileItems>) -> Parsed<FileDescriptorView> {
    match p {
        (Err(e), s1) => (Err(e), s1),
        (Ok(items), s1) => match items.package {
            None => (Err(ParserErrorView::MissingPackage), s1),
            Some(namespace) => (
                Ok(
                    FileDescriptorView {
                        imports: items.imports,
                        schema: SchemaView {
                            namespace,
                            messages: items.messages,
                            enums: items.enums,
                            services: items.services,
                            attributes: items.attributes,
                        },
                    },
                ),
                s1,
            ),
        },
    }
}

/// What the grammar makes of the text `input`: the file as it is declared,
/// before it is sealed, or the first error with the position that the
/// tokenizer reports for it.
pub open spec fn parse_unsealed(input: Seq<char>) -> Result<
    FileDescriptorView,
    (ParserErrorView, Loc),
> {
    let (r, s) = statements(fresh(lex(input, ParserLanguage::Proto)));
    match r {
        Ok(file) => Ok(file),
        Err(e) => Err((e, loc_of(s))),
    }
}

/// Where the tokenizer stands when the statements of the text `input` have
/// been read, to the end of the text or to the first error.
pub open spec fn parse_end(input: Seq<char>) -> Loc {
    loc_of(statements(fresh(lex(input, ParserLanguage::Proto))).1)
}

} // verus!
