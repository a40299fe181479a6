//! Parsing moves forward: no construct leaves the tokenizer before where it
//! found it, every construct that is found has consumed a token, and so no
//! text ever leaves the parser stuck.

use vstd::prelude::*;
use crate::lexer::grammar::lex;
use crate::lexer::token::{ParserLanguage, TokenView};
use crate::lexer::tokenizer::{
    advances, consumed, follows, fresh, ident_expect, ident_if_eq, looked, peek, remaining,
    symbol_expect, symbol_if_eq, wf, TokenizerErrorView, TokenizerView,
};
use crate::model::{AttributeView, EnumerationView, MessageView, MethodView};
use crate::parser::error::ParserErrorView;
use crate::parser::syntax::{
    array_field_type_opt, attribute_opt, attribute_values, bool_lit_opt, constant,
    empty_statement_opt, enum_field, enum_items, enum_opt, enum_value, field, field_number,
    field_number_opt, field_type, file_items, full_ident, full_ident_rest, full_ident_text,
    import_opt, import_vis, int_lit, label, lit_opt, map_field_type_opt, message_body,
    message_items, message_opt, num_lit, option_opt, package_opt, parse_unsealed, placed_field,
    statements,
    rpc_input, rpc_opt, rpc_output, rpc_returns, service_items, service_opt, signed_num_lit, tok,
    FileItems, Pairs, Parsed,
};

verus! {

/// Whether an outcome is the one of a parser that is stuck.
pub open spec fn is_stuck<T>(r: Result<T, ParserErrorView>) -> bool {
    r matches Err(ParserErrorView::TokenizerError(TokenizerErrorView::InternalError))
}

/// Whether the outcome `p` of a construct that was looked for in the state
/// `s` is in order: the parser is not stuck and not before `s`.
pub open spec fn moved<T>(s: TokenizerView, p: Parsed<T>) -> bool {
    !is_stuck(p.0) && follows(s, p.1)
}

/// Whether the outcome `p` of a construct that must be there is in order:
/// where it is found, a token is consumed.
pub open spec fn found<T>(s: TokenizerView, p: Parsed<T>) -> bool {
    moved(s, p) && (p.0 is Ok ==> advances(s, p.1))
}

/// Whether the outcome `p` of an optional construct is in order: where it is
/// found, a token is consumed.
pub open spec fn found_opt<T>(s: TokenizerView, p: Parsed<Option<T>>) -> bool {
    moved(s, p) && (p.0 matches Ok(Some(_)) ==> advances(s, p.1))
}

/// The rest of a path moves forward, and does not leave the parser stuck.
pub proof fn lemma_full_ident_rest(s: TokenizerView, acc: Seq<char>)
    requires
        wf(s),
    ensures
        moved(s, full_ident_rest(s, acc)),
    decreases remaining(s),
{
    match peek(s) {
        Err(e) => {},
        Ok(Some(t)) => {
            if crate::parser::syntax::is_path_separator(t) {
                match tok(ident_expect(consumed(s))) {
                    (Err(e), s2) => {},
                    (Ok(part), s2) => {
                        lemma_full_ident_rest(s2, acc + seq!['.'] + part);
                    },
                }
            }
        },
        Ok(None) => {},
    }
}

/// A path moves forward, and does not leave the parser stuck.
pub proof fn lemma_full_ident(s: TokenizerView)
    requires
        wf(s),
    ensures
        found(s, full_ident(s)),
        found(s, full_ident_text(s)),
{
    reveal(full_ident);
    reveal(full_ident_text);
    match tok(ident_expect(s)) {
        (Err(e), s1) => {},
        (Ok(first), s1) => {
            lemma_full_ident_rest(s1, first);
        },
    }
}

/// A literal moves forward, and does not leave the parser stuck.
pub proof fn lemma_lit_opt(s: TokenizerView)
    requires
        wf(s),
    ensures
        found_opt(s, lit_opt(s)),
{
    reveal(lit_opt);
    reveal(bool_lit_opt);
    reveal(signed_num_lit);
    reveal(num_lit);
}

/// A constant moves forward, and does not leave the parser stuck.
pub proof fn lemma_constant(s: TokenizerView)
    requires
        wf(s),
    ensures
        found(s, constant(s)),
{
    reveal(constant);
    lemma_lit_opt(s);
    lemma_full_ident(looked(lit_opt(s).1));
}

/// An import moves forward, and does not leave the parser stuck.
pub proof fn lemma_import_opt(s: TokenizerView)
    requires
        wf(s),
    ensures
        found_opt(s, import_opt(s)),
{
    reveal(import_opt);
    reveal(import_vis);
}

/// A `package` statement moves forward, and does not leave the parser stuck.
pub proof fn lemma_package_opt(s: TokenizerView)
    requires
        wf(s),
    ensures
        found_opt(s, package_opt(s)),
{
    reveal(package_opt);
    lemma_full_ident(ident_if_eq(s, "package"@).1);
}

/// The values of an attribute moves forward, and does not leave the parser stuck.
pub proof fn lemma_attribute_values(s: TokenizerView, acc: Pairs)
    requires
        wf(s),
    ensures
        found(s, attribute_values(s, acc)),
    decreases remaining(s),
{
    match tok(symbol_if_eq(s, ')')) {
        (Err(e), s1) => {},
        (Ok(true), s1) => {},
        (Ok(false), s1) => {
            lemma_lit_opt(s1);
            match lit_opt(s1) {
                (Err(e), s2) => {},
                (Ok(Some(lit)), s2) => match tok(symbol_if_eq(s2, ',')) {
                    (Err(e), s3) => {},
                    (Ok(_), s3) => {
                        lemma_attribute_values(
                            s3,
                            acc.push((crate::parser::syntax::unnamed(), lit)),
                        );
                    },
                },
                (Ok(None), s2) => match tok(ident_expect(s2)) {
                    (Err(e), s3) => {},
                    (Ok(name), s3) => match tok(symbol_if_eq(s3, ',')) {
                        (Err(e), s4) => {},
                        (Ok(true), s4) => {
                            lemma_attribute_values(
                                s4,
                                acc.push((name, crate::model::ConstantView::Bool(true))),
                            );
                        },
                        (Ok(false), s4) => match tok(symbol_if_eq(s4, ')')) {
                            (Err(e), s5) => {},
                            (Ok(true), s5) => {},
                            (Ok(false), s5) => match tok(symbol_expect(s5, '=')) {
                                (Err(e), s6) => {},
                                (Ok(_), s6) => {
                                    lemma_constant(s6);
                                    match constant(s6) {
                                        (Err(e), s7) => {},
                                        (Ok(value), s7) => match tok(symbol_if_eq(s7, ',')) {
                                            (Err(e), s8) => {},
                                            (Ok(_), s8) => {
                                                lemma_attribute_values(
                                                    s8,
                                                    acc.push((name, value)),
                                                );
                                            },
                                        },
                                    }
                                },
                            },
                        },
                    },
                },
            }
        },
    }
}

/// An attribute moves forward, and does not leave the parser stuck.
pub proof fn lemma_attribute_opt(s: TokenizerView)
    requires
        wf(s),
    ensures
        found_opt(s, attribute_opt(s)),
{
    reveal(attribute_opt);
    let s1 = symbol_if_eq(s, '@').1;
    lemma_full_ident(s1);
    let s3 = symbol_if_eq(full_ident(s1).1, '(').1;
    lemma_attribute_values(s3, seq![]);
}

/// An `option` statement moves forward, and does not leave the parser stuck.
pub proof fn lemma_option_opt(s: TokenizerView)
    requires
        wf(s),
    ensures
        found_opt(s, option_opt(s)),
{
    reveal(option_opt);
    let s1 = ident_if_eq(s, "option"@).1;
    lemma_full_ident(s1);
    let s3 = symbol_expect(full_ident(s1).1, '=').1;
    lemma_constant(s3);
}

/// A type moves forward, and does not leave the parser stuck.
pub proof fn lemma_field_type(s: TokenizerView)
    requires
        wf(s),
    ensures
        found(s, field_type(s)),
    decreases remaining(s), 1int,
{
    match peek(s) {
        Err(e) => {},
        Ok(Some(TokenView::Ident(word))) => match crate::parser::syntax::simple_type(word) {
            Some(t) => {},
            None => {
                lemma_map_field_type_opt(looked(s));
                lemma_full_ident(map_field_type_opt(looked(s)).1);
            },
        },
        Ok(_) => {
            lemma_array_field_type_opt(looked(s));
            lemma_full_ident(array_field_type_opt(looked(s)).1);
        },
    }
}

/// A map type moves forward, and does not leave the parser stuck.
pub proof fn lemma_map_field_type_opt(s: TokenizerView)
    requires
        wf(s),
    ensures
        found_opt(s, map_field_type_opt(s)),
    decreases remaining(s), 0int,
{
    match tok(ident_if_eq(s, "map"@)) {
        (Err(e), s1) => {},
        (Ok(false), s1) => {},
        (Ok(true), s1) => match tok(symbol_expect(s1, '<')) {
            (Err(e), s2) => {},
            (Ok(_), s2) => {
                lemma_field_type(s2);
                match field_type(s2) {
                    (Err(e), s3) => {},
                    (Ok(key), s3) => match tok(symbol_expect(s3, ',')) {
                        (Err(e), s4) => {},
                        (Ok(_), s4) => {
                            lemma_field_type(s4);
                        },
                    },
                }
            },
        },
    }
}

/// An array type moves forward, and does not leave the parser stuck.
pub proof fn lemma_array_field_type_opt(s: TokenizerView)
    requires
        wf(s),
    ensures
        found_opt(s, array_field_type_opt(s)),
    decreases remaining(s), 0int,
{
    match tok(symbol_if_eq(s, '[')) {
        (Err(e), s1) => {},
        (Ok(false), s1) => {},
        (Ok(true), s1) => {
            lemma_field_type(s1);
        },
    }
}

/// A field moves forward, and does not leave the parser stuck.
pub proof fn lemma_field(s: TokenizerView)
    requires
        wf(s),
    ensures
        found(s, field(s)),
{
    reveal(field);
    reveal(label);
    reveal(field_number_opt);
    reveal(field_number);
    reveal(int_lit);
    let s1 = label(looked(s)).1;
    lemma_field_type(s1);
}

/// A value of an enumeration moves forward, and does not leave the parser stuck.
pub proof fn lemma_enum_field(s: TokenizerView)
    requires
        wf(s),
    ensures
        found(s, enum_field(s)),
{
    reveal(enum_field);
    reveal(enum_value);
    reveal(int_lit);
}

/// The items of an enumeration moves forward, and does not leave the parser stuck.
pub proof fn lemma_enum_items(s: TokenizerView, acc: EnumerationView)
    requires
        wf(s),
    ensures
        moved(s, enum_items(s, acc)),
        enum_items(s, acc).0 is Ok ==> peek(enum_items(s, acc).1) == Ok::<
            Option<TokenView>,
            TokenizerErrorView,
        >(Some(TokenView::Symbol('}'))),
    decreases remaining(s),
{
    reveal(empty_statement_opt);
    match peek(s) {
        Err(e) => {},
        Ok(Some(TokenView::Symbol('}'))) => {},
        Ok(_) => match empty_statement_opt(looked(s)) {
            (Err(e), s1) => {},
            (Ok(Some(_)), s1) => {
                lemma_enum_items(s1, acc);
            },
            (Ok(None), s1) => {
                lemma_option_opt(s1);
                match option_opt(s1) {
                    (Err(e), s2) => {},
                    (Ok(Some(attr)), s2) => {
                        lemma_enum_items(
                            s2,
                            EnumerationView { attributes: acc.attributes.push(attr), ..acc },
                        );
                    },
                    (Ok(None), s2) => {
                        lemma_enum_field(s2);
                        match enum_field(s2) {
                            (Err(e), s3) => {},
                            (Ok(value), s3) => {
                                lemma_enum_items(
                                    s3,
                                    EnumerationView { values: acc.values.push(value), ..acc },
                                );
                            },
                        }
                    },
                }
            },
        },
    }
}

/// An enumeration moves forward, and does not leave the parser stuck.
pub proof fn lemma_enum_opt(s: TokenizerView)
    requires
        wf(s),
    ensures
        found_opt(s, enum_opt(s)),
{
    reveal(enum_opt);
    let s0 = looked(s);
    match tok(ident_if_eq(s0, "enum"@)) {
        (Err(e), s1) => {},
        (Ok(false), s1) => {},
        (Ok(true), s1) => match tok(ident_expect(s1)) {
            (Err(e), s2) => {},
            (Ok(name), s2) => match tok(symbol_expect(s2, '{')) {
                (Err(e), s3) => {},
                (Ok(_), s3) => {
                    lemma_enum_items(
                        s3,
                        EnumerationView {
                            name,
                            values: seq![],
                            attributes: seq![
                                crate::parser::syntax::source_attribute(
                                    crate::lexer::tokenizer::loc_of(s0),
                                ),
                            ],
                        },
                    );
                },
            },
        },
    }
}

/// The items of a message moves forward, and does not leave the parser stuck.
pub proof fn lemma_message_items(s: TokenizerView, acc: MessageView, pending: Seq<AttributeView>)
    requires
        wf(s),
    ensures
        moved(s, message_items(s, acc, pending)),
    decreases remaining(s), 1int,
{
    reveal(empty_statement_opt);
    match peek(s) {
        Err(e) => {},
        Ok(Some(TokenView::Symbol('}'))) => {},
        Ok(_) => match empty_statement_opt(looked(s)) {
            (Err(e), s1) => {},
            (Ok(Some(_)), s1) => {
                lemma_message_items(s1, acc, pending);
            },
            (Ok(None), s1) => {
                lemma_message_opt(s1);
                match message_opt(s1) {
                    (Err(e), s2) => {},
                    (Ok(Some(m)), s2) => {
                        lemma_message_items(
                            s2,
                            MessageView {
                                messages: acc.messages.push(
                                    MessageView { attributes: m.attributes + pending, ..m },
                                ),
                                ..acc
                            },
                            seq![],
                        );
                    },
                    (Ok(None), s2) => {
                        lemma_enum_opt(s2);
                        match enum_opt(s2) {
                            (Err(e), s3) => {},
                            (Ok(Some(en)), s3) => {
                                lemma_message_items(
                                    s3,
                                    MessageView {
                                        enums: acc.enums.push(
                                            EnumerationView {
                                                attributes: en.attributes + pending,
                                                ..en
                                            },
                                        ),
                                        ..acc
                                    },
                                    seq![],
                                );
                            },
                            (Ok(None), s3) => {
                                lemma_option_opt(s3);
                                match option_opt(s3) {
                                    (Err(e), s4) => {},
                                    (Ok(Some(option)), s4) => {
                                        lemma_message_items(
                                            s4,
                                            MessageView {
                                                attributes: acc.attributes.push(option),
                                                ..acc
                                            },
                                            pending,
                                        );
                                    },
                                    (Ok(None), s4) => {
                                        lemma_attribute_opt(s4);
                                        match attribute_opt(s4) {
                                            (Err(e), s5) => {},
                                            (Ok(Some(attr)), s5) => {
                                                lemma_message_items(s5, acc, pending.push(attr));
                                            },
                                            (Ok(None), s5) => {
                                                lemma_field(s5);
                                                match field(s5) {
                                                    (Err(e), s6) => {},
                                                    (Ok(f), s6) => match placed_field(
                                                        f,
                                                        acc.fields,
                                                        pending,
                                                    ) {
                                                        Err(e) => {},
                                                        Ok(placed) => {
                                                            lemma_message_items(
                                                                s6,
                                                                MessageView {
                                                                    fields: acc.fields.push(
                                                                        placed,
                                                                    ),
                                                                    ..acc
                                                                },
                                                                seq![],
                                                            );
                                                        },
                                                    },
                                                }
                                            },
                                        }
                                    },
                                }
                            },
                        }
                    },
                }
            },
        },
    }
}

/// The body of a message moves forward, and does not leave the parser stuck.
pub proof fn lemma_message_body(s: TokenizerView)
    requires
        wf(s),
    ensures
        found(s, message_body(s)),
    decreases remaining(s), 2int,
{
    let s0 = looked(s);
    match tok(symbol_expect(s0, '{')) {
        (Err(e), s1) => {},
        (Ok(_), s1) => {
            lemma_message_items(
                s1,
                crate::parser::syntax::empty_message(crate::lexer::tokenizer::loc_of(s0)),
                seq![],
            );
        },
    }
}

/// A message moves forward, and does not leave the parser stuck.
pub proof fn lemma_message_opt(s: TokenizerView)
    requires
        wf(s),
    ensures
        found_opt(s, message_opt(s)),
    decreases remaining(s), 0int,
{
    match tok(ident_if_eq(s, "message"@)) {
        (Err(e), s1) => {},
        (Ok(false), s1) => {},
        (Ok(true), s1) => match tok(ident_expect(s1)) {
            (Err(e), s2) => {},
            (Ok(name), s2) => {
                lemma_message_body(s2);
            },
        },
    }
}

/// A method moves forward, and does not leave the parser stuck.
pub proof fn lemma_rpc_opt(s: TokenizerView)
    requires
        wf(s),
    ensures
        found_opt(s, rpc_opt(s)),
{
    reveal(rpc_opt);
    reveal(rpc_input);
    reveal(rpc_returns);
    reveal(rpc_output);
    match tok(ident_if_eq(s, "rpc"@)) {
        (Err(e), s1) => {},
        (Ok(false), s1) => {},
        (Ok(true), s1) => match tok(ident_expect(s1)) {
            (Err(e), s2) => {},
            (Ok(name), s2) => match tok(symbol_expect(s2, '(')) {
                (Err(e), s3) => {},
                (Ok(_), s3) => {
                    lemma_field_type(symbol_if_eq(s3, ')').1);
                    match rpc_input(s3) {
                        (Err(e), s4) => {},
                        (Ok(input_type), s4) => match rpc_returns(s4) {
                            (Err(e), s5) => {},
                            (Ok(announced), s5) => {
                                let s6 = symbol_if_eq(s5, '(').1;
                                lemma_field_type(s6);
                                lemma_field_type(symbol_if_eq(s6, ')').1);
                            },
                        },
                    }
                },
            },
        },
    }
}

/// The items of a service moves forward, and does not leave the parser stuck.
pub proof fn lemma_service_items(s: TokenizerView, acc: Seq<MethodView>, pending: Seq<AttributeView>)
    requires
        wf(s),
    ensures
        moved(s, service_items(s, acc, pending)),
    decreases remaining(s),
{
    reveal(empty_statement_opt);
    match peek(s) {
        Err(e) => {},
        Ok(Some(TokenView::Symbol('}'))) => {},
        Ok(_) => {
            lemma_rpc_opt(looked(s));
            match rpc_opt(looked(s)) {
                (Err(e), s1) => {},
                (Ok(Some(m)), s1) => {
                    lemma_service_items(
                        s1,
                        acc.push(MethodView { attributes: m.attributes + pending, ..m }),
                        seq![],
                    );
                },
                (Ok(None), s1) => {
                    lemma_attribute_opt(s1);
                    match attribute_opt(s1) {
                        (Err(e), s2) => {},
                        (Ok(Some(attr)), s2) => {
                            lemma_service_items(s2, acc, pending.push(attr));
                        },
                        (Ok(None), s2) => match empty_statement_opt(s2) {
                            (Err(e), s3) => {},
                            (Ok(Some(_)), s3) => {
                                lemma_service_items(s3, acc, pending);
                            },
                            (Ok(None), s3) => {},
                        },
                    }
                },
            }
        },
    }
}

/// A service moves forward, and does not leave the parser stuck.
pub proof fn lemma_service_opt(s: TokenizerView)
    requires
        wf(s),
    ensures
        found_opt(s, service_opt(s)),
{
    reveal(service_opt);
    let s0 = looked(s);
    match tok(ident_if_eq(s0, "service"@)) {
        (Err(e), s1) => {},
        (Ok(false), s1) => {},
        (Ok(true), s1) => match tok(ident_expect(s1)) {
            (Err(e), s2) => {},
            (Ok(name), s2) => match tok(symbol_expect(s2, '{')) {
                (Err(e), s3) => {},
                (Ok(_), s3) => {
                    lemma_service_items(s3, seq![], seq![]);
                },
            },
        },
    }
}

/// The statements of a file moves forward, and does not leave the parser stuck.
pub proof fn lemma_file_items(s: TokenizerView, acc: FileItems)
    requires
        wf(s),
    ensures
        moved(s, file_items(s, acc)),
    decreases remaining(s),
{
    reveal(empty_statement_opt);
    match peek(s) {
        Err(e) => {},
        Ok(None) => {},
        Ok(Some(_)) => {
            lemma_import_opt(looked(s));
            match import_opt(looked(s)) {
                (Err(e), s1) => {},
                (Ok(Some(import)), s1) => {
                    if acc.pending.len() == 0 {
                        lemma_file_items(
                            s1,
                            FileItems { imports: acc.imports.push(import), ..acc },
                        );
                    }
                },
                (Ok(None), s1) => {
                    lemma_package_opt(s1);
                    match package_opt(s1) {
                        (Err(e), s2) => {},
                        (Ok(Some(package)), s2) => {
                            if acc.package is None && acc.pending.len() == 0 {
                                lemma_file_items(s2, FileItems { package: Some(package), ..acc });
                            }
                        },
                        (Ok(None), s2) => {
                            lemma_attribute_opt(s2);
                            match attribute_opt(s2) {
                                (Err(e), s3) => {},
                                (Ok(Some(attr)), s3) => {
                                    lemma_file_items(
                                        s3,
                                        FileItems { pending: acc.pending.push(attr), ..acc },
                                    );
                                },
                                (Ok(None), s3) => {
                                    lemma_option_opt(s3);
                                    match option_opt(s3) {
                                        (Err(e), s4) => {},
                                        (Ok(Some(option)), s4) => {
                                            if acc.pending.len() == 0 {
                                                lemma_file_items(
                                                    s4,
                                                    FileItems {
                                                        attributes: acc.attributes.push(option),
                                                        ..acc
                                                    },
                                                );
                                            }
                                        },
                                        (Ok(None), s4) => {
                                            lemma_message_opt(s4);
                                            match message_opt(s4) {
                                                (Err(e), s5) => {},
                                                (Ok(Some(m)), s5) => {
                                                    lemma_file_items(
                                                        s5,
                                                        FileItems {
                                                            messages: acc.messages.push(
                                                                MessageView {
                                                                    attributes: m.attributes
                                                                        + acc.pending,
                                                                    ..m
                                                                },
                                                            ),
                                                            pending: seq![],
                                                            ..acc
                                                        },
                                                    );
                                                },
                                                (Ok(None), s5) => {
                                                    lemma_enum_opt(s5);
                                                    match enum_opt(s5) {
                                                        (Err(e), s6) => {},
                                                        (Ok(Some(en)), s6) => {
                                                            lemma_file_items(
                                                                s6,
                                                                FileItems {
                                                                    enums: acc.enums.push(
                                                                        EnumerationView {
                                                                            attributes:
                                                                                en.attributes
                                                                                + acc.pending,
                                                                            ..en
                                                                        },
                                                                    ),
                                                                    pending: seq![],
                                                                    ..acc
                                                                },
                                                            );
                                                        },
                                                        (Ok(None), s6) => {
                                                            lemma_service_opt(s6);
                                                            match service_opt(s6) {
                                                                (Err(e), s7) => {},
                                                                (Ok(Some(service)), s7) => {
                                                                    lemma_file_items(
                                                                        s7,
                                                                        FileItems {
                                                                            services:
                                                                                acc.services.push(
                                                                                crate::model::ServiceView {
                                                                                    attributes:
                                                                                        service.attributes
                                                                                        + acc.pending,
                                                                                    ..service
                                                                                },
                                                                            ),
                                                                            pending: seq![],
                                                                            ..acc
                                                                        },
                                                                    );
                                                                },
                                                                (Ok(None), s7) => match empty_statement_opt(
                                                                    s7,
                                                                ) {
                                                                    (Err(e), s8) => {},
                                                                    (Ok(Some(_)), s8) => {
                                                                        if acc.pending.len() == 0 {
                                                                            lemma_file_items(
                                                                                s8,
                                                                                acc,
                                                                            );
                                                                        }
                                                                    },
                                                                    (Ok(None), s8) => {},
                                                                },
                                                            }
                                                        },
                                                    }
                                                },
                                            }
                                        },
                                    }
                                },
                            }
                        },
                    }
                },
            }
        },
    }
}

/// No text leaves the parser stuck: the error that stands for a construct
/// that did not move forward is never the outcome of parsing.
pub proof fn law_parsing_is_never_stuck(input: Seq<char>)
    ensures
        !(parse_unsealed(input) matches Err(
            (ParserErrorView::TokenizerError(TokenizerErrorView::InternalError), _),
        )),
{
    reveal(statements);
    crate::lexer::grammar::law_tokens_have_positions(input, 0, ParserLanguage::Proto);
    let s = fresh(lex(input, ParserLanguage::Proto));
    lemma_file_items(s, crate::parser::syntax::no_items());
}

} // verus!
