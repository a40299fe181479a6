//! What holds of every text that is parsed.

use vstd::prelude::*;
use crate::lexer::token::TokenView;
use crate::lexer::tokenizer::{
    advances, follows, looked, peek, symbol_expect, TokenizerErrorView, TokenizerView,
};
use crate::model::{AttributeView, FieldTypeView, FieldView, MessageView};
use crate::parser::error::ParserErrorView;
use crate::parser::syntax::{
    array_field_type_opt, attribute_opt, empty_message, empty_statement_opt, enum_field, enum_items,
    enum_opt, field, field_type, file_items, full_ident, import_opt, is_map_key_type, labelled_type,
    map_field_type_opt, message_items, message_opt, number_in_use, option_opt, package_opt,
    placed_field, service_items, service_opt, simple_type, source_attribute, statements, tok,
    FileItems,
    Occurrence,
};
use crate::lexer::tokenizer::{ident_expect, loc_of, remaining};
use crate::model::EnumerationView;
use crate::lexer::tokenizer::ident_if_eq;

verus! {

/// Whether the fields carry the numbers 1, 2, 3 and so on, in order.
pub open spec fn sequential(fields: Seq<FieldView>) -> bool {
    forall|i: int| 0 <= i < fields.len() ==> (#[trigger] fields[i]).number == i + 1
}

/// Whether no two fields carry the same number.
pub open spec fn distinct_numbers(fields: Seq<FieldView>) -> bool {
    forall|i: int, j: int|
        0 <= i < j < fields.len() ==> (#[trigger] fields[i]).number != (#[trigger] fields[j]).number
}

/// A field that is written without a number gets its position in the message,
/// counted from 1. So where every field of a message is written without a
/// number, the fields are numbered 1, 2, 3 and so on in the order in which
/// they are declared.
pub proof fn law_default_tags_are_sequential(
    f: FieldView,
    fields: Seq<FieldView>,
    pending: Seq<AttributeView>,
)
    requires
        f.number == 0,
        sequential(fields),
        fields.len() < u32::MAX,
    ensures
        placed_field(f, fields, pending) matches Ok(placed) && placed.number == fields.len() + 1
            && sequential(fields.push(placed)),
{
    let number = (fields.len() + 1) as u32;
    if number_in_use(fields, number) {
        let i = choose|i: int| 0 <= i < fields.len() && (#[trigger] fields[i]).number == number;
        assert(fields[i].number == i + 1);
    }
}

/// A field joins a message only with a number that no earlier field of the
/// message carries.
pub proof fn law_placed_field_is_new(
    f: FieldView,
    fields: Seq<FieldView>,
    pending: Seq<AttributeView>,
)
    requires
        distinct_numbers(fields),
    ensures
        match placed_field(f, fields, pending) {
            Ok(placed) => distinct_numbers(fields.push(placed)),
            Err(e) => e is IntegerOverflow || e is DuplicateFieldNumber,
        },
{
    match placed_field(f, fields, pending) {
        Ok(placed) => {
            let all = fields.push(placed);
            assert forall|i: int, j: int| 0 <= i < j < all.len() implies (#[trigger] all[i]).number
                != (#[trigger] all[j]).number by {
                if j == fields.len() {
                    assert(all[i] == fields[i]);
                    assert(!number_in_use(fields, placed.number));
                } else {
                    assert(all[i] == fields[i]);
                    assert(all[j] == fields[j]);
                }
            }
        },
        Err(e) => {},
    }
}

/// The numbers of the fields of a message are unique: where the items of a
/// message are parsed, starting from fields with unique numbers, the message
/// that results has fields with unique numbers.
pub proof fn law_field_numbers_are_unique(
    s: TokenizerView,
    acc: MessageView,
    pending: Seq<AttributeView>,
)
    requires
        distinct_numbers(acc.fields),
    ensures
        message_items(s, acc, pending).0 matches Ok(m) ==> distinct_numbers(m.fields),
    decreases s.tokens.len() - s.pos,
{
    match peek(s) {
        Err(e) => {},
        Ok(Some(TokenView::Symbol('}'))) => {},
        Ok(_) => match empty_statement_opt(looked(s)) {
            (Err(e), s1) => {},
            (Ok(Some(_)), s1) => {
                if advances(s, s1) {
                    law_field_numbers_are_unique(s1, acc, pending);
                }
            },
            (Ok(None), s1) => {
                if follows(s, s1) {
                    match message_opt(s1) {
                        (Err(e), s2) => {},
                        (Ok(Some(m)), s2) => {
                            if advances(s, s2) {
                                law_field_numbers_are_unique(
                                    s2,
                                    MessageView {
                                        messages: acc.messages.push(
                                            MessageView { attributes: m.attributes + pending, ..m },
                                        ),
                                        ..acc
                                    },
                                    seq![],
                                );
                            }
                        },
                        (Ok(None), s2) => match enum_opt(s2) {
                            (Err(e), s3) => {},
                            (Ok(Some(en)), s3) => {
                                if advances(s, s3) {
                                    law_field_numbers_are_unique(
                                        s3,
                                        MessageView {
                                            enums: acc.enums.push(
                                                crate::model::EnumerationView {
                                                    attributes: en.attributes + pending,
                                                    ..en
                                                },
                                            ),
                                            ..acc
                                        },
                                        seq![],
                                    );
                                }
                            },
                            (Ok(None), s3) => match option_opt(s3) {
                                (Err(e), s4) => {},
                                (Ok(Some(option)), s4) => {
                                    if advances(s, s4) {
                                        law_field_numbers_are_unique(
                                            s4,
                                            MessageView {
                                                attributes: acc.attributes.push(option),
                                                ..acc
                                            },
                                            pending,
                                        );
                                    }
                                },
                                (Ok(None), s4) => match attribute_opt(s4) {
                                    (Err(e), s5) => {},
                                    (Ok(Some(attr)), s5) => {
                                        if advances(s, s5) {
                                            law_field_numbers_are_unique(
                                                s5,
                                                acc,
                                                pending.push(attr),
                                            );
                                        }
                                    },
                                    (Ok(None), s5) => match field(s5) {
                                        (Err(e), s6) => {},
                                        (Ok(f), s6) => {
                                            law_placed_field_is_new(f, acc.fields, pending);
                                            match placed_field(f, acc.fields, pending) {
                                                Err(e) => {},
                                                Ok(placed) => {
                                                    if advances(s, s6) {
                                                        law_field_numbers_are_unique(
                                                            s6,
                                                            MessageView {
                                                                fields: acc.fields.push(placed),
                                                                ..acc
                                                            },
                                                            seq![],
                                                        );
                                                    }
                                                },
                                            }
                                        },
                                    },
                                },
                            },
                        },
                    }
                }
            },
        },
    }
}

/// Attributes that nothing follows before the `}` of a message are an error.
pub proof fn law_dangling_attributes_in_message(
    s: TokenizerView,
    acc: MessageView,
    pending: Seq<AttributeView>,
)
    requires
        peek(s) == Ok::<Option<TokenView>, TokenizerErrorView>(Some(TokenView::Symbol('}'))),
        pending.len() > 0,
    ensures
        message_items(s, acc, pending).0 == Err::<MessageView, ParserErrorView>(
            ParserErrorView::DanglingAttributes,
        ),
{
}

/// Attributes that nothing follows before the `}` of a service are an error.
pub proof fn law_dangling_attributes_in_service(
    s: TokenizerView,
    acc: Seq<crate::model::MethodView>,
    pending: Seq<AttributeView>,
)
    requires
        peek(s) == Ok::<Option<TokenView>, TokenizerErrorView>(Some(TokenView::Symbol('}'))),
        pending.len() > 0,
    ensures
        service_items(s, acc, pending).0 == Err::<Seq<crate::model::MethodView>, ParserErrorView>(
            ParserErrorView::DanglingAttributes,
        ),
{
}

/// Attributes that nothing follows before the end of the file are an error.
pub proof fn law_dangling_attributes_at_end_of_file(s: TokenizerView, acc: FileItems)
    requires
        peek(s) == Ok::<Option<TokenView>, TokenizerErrorView>(None),
        acc.pending.len() > 0,
    ensures
        file_items(s, acc).0 == Err::<FileItems, ParserErrorView>(
            ParserErrorView::DanglingAttributes,
        ),
{
}

/// A file whose statements hold no `package` statement is an error.
pub proof fn law_missing_package(s: TokenizerView)
    requires
        file_items(s, crate::parser::syntax::no_items()).0 matches Ok(items) && items.package
            is None,
    ensures
        statements(s).0 == Err::<crate::descriptor::FileDescriptorView, ParserErrorView>(
            ParserErrorView::MissingPackage,
        ),
{
    reveal(statements);
}

/// A `package` statement in a file that has declared its package already is
/// an error.
pub proof fn law_only_one_package(s: TokenizerView, acc: FileItems)
    requires
        peek(s) matches Ok(Some(_)),
        import_opt(looked(s)).0 == Ok::<Option<crate::descriptor::ImportView>, ParserErrorView>(
            None,
        ),
        package_opt(import_opt(looked(s)).1).0 matches Ok(Some(_)),
        acc.package is Some,
    ensures
        file_items(s, acc).0 == Err::<FileItems, ParserErrorView>(ParserErrorView::OnlyOnePackage),
{
}

/// A map whose key type is neither an integer type nor `String` is an error.
pub proof fn law_map_key_type(s: TokenizerView)
    requires
        tok(ident_if_eq(s, "map"@)).0 == Ok::<bool, ParserErrorView>(true),
        tok(symbol_expect(ident_if_eq(s, "map"@).1, '<')).0 is Ok,
        advances(s, symbol_expect(ident_if_eq(s, "map"@).1, '<').1),
        field_type(symbol_expect(ident_if_eq(s, "map"@).1, '<').1).0 matches Ok(key)
            && !is_map_key_type(key),
    ensures
        map_field_type_opt(s).0 == Err::<Option<FieldTypeView>, ParserErrorView>(
            ParserErrorView::MapKeyType,
        ),
{
}

/// The label `repeated` before an array type is an error; before any other
/// type it makes an array of that type.
pub proof fn law_repeated_array(t: FieldTypeView)
    ensures
        t is Array ==> labelled_type(Some(Occurrence::Repeated), t) == Err::<
            FieldTypeView,
            ParserErrorView,
        >(ParserErrorView::RepeatedArray),
        !(t is Array) ==> labelled_type(Some(Occurrence::Repeated), t) == Ok::<
            FieldTypeView,
            ParserErrorView,
        >(FieldTypeView::Array(Box::new(t))),
{
}

/// Whether every map inside a type has a key type that is an integer type
/// or `String`.
pub open spec fn map_keys_ok(t: FieldTypeView) -> bool
    decreases t,
{
    match t {
        FieldTypeView::Mapping(key, value) => is_map_key_type(*key) && map_keys_ok(*value),
        FieldTypeView::Array(item) => map_keys_ok(*item),
        _ => true,
    }
}

/// The key type of every map of a type that is parsed is an integer type or
/// `String`.
pub proof fn law_map_keys_are_integers_or_strings(s: TokenizerView)
    ensures
        field_type(s).0 matches Ok(t) ==> map_keys_ok(t),
    decreases remaining(s), 1int,
{
    reveal(full_ident);
    match peek(s) {
        Err(e) => {},
        Ok(Some(TokenView::Ident(word))) => match simple_type(word) {
            Some(t) => {},
            None => {
                lemma_map_keys_of_map(looked(s));
            },
        },
        Ok(_) => {
            lemma_map_keys_of_array(looked(s));
        },
    }
}

/// The key type of every map of a map type that is parsed is an integer
/// type or `String`.
pub proof fn lemma_map_keys_of_map(s: TokenizerView)
    ensures
        map_field_type_opt(s).0 matches Ok(Some(t)) ==> map_keys_ok(t),
    decreases remaining(s), 0int,
{
    match tok(ident_if_eq(s, "map"@)) {
        (Err(e), s1) => {},
        (Ok(false), s1) => {},
        (Ok(true), s1) => match tok(symbol_expect(s1, '<')) {
            (Err(e), s2) => {},
            (Ok(_), s2) => {
                if advances(s, s2) {
                    law_map_keys_are_integers_or_strings(s2);
                    match field_type(s2) {
                        (Err(e), s3) => {},
                        (Ok(key), s3) => match tok(symbol_expect(s3, ',')) {
                            (Err(e), s4) => {},
                            (Ok(_), s4) => {
                                if advances(s, s4) {
                                    law_map_keys_are_integers_or_strings(s4);
                                }
                            },
                        },
                    }
                }
            },
        },
    }
}

/// The key type of every map of an array type that is parsed is an integer
/// type or `String`.
pub proof fn lemma_map_keys_of_array(s: TokenizerView)
    ensures
        array_field_type_opt(s).0 matches Ok(Some(t)) ==> map_keys_ok(t),
    decreases remaining(s), 0int,
{
    match tok(crate::lexer::tokenizer::symbol_if_eq(s, '[')) {
        (Err(e), s1) => {},
        (Ok(false), s1) => {},
        (Ok(true), s1) => {
            if advances(s, s1) {
                law_map_keys_are_integers_or_strings(s1);
            }
        },
    }
}

/// Whether the first of the attributes records where a declaration stands.
pub open spec fn records_source(attributes: Seq<AttributeView>) -> bool {
    attributes.len() > 0 && exists|loc: crate::lexer::loc::Loc| attributes[0] == source_attribute(loc)
}

/// The items of a message leave the first attribute of the message as it is.
pub proof fn lemma_message_items_keep_source(
    s: TokenizerView,
    acc: MessageView,
    pending: Seq<AttributeView>,
)
    requires
        acc.attributes.len() > 0,
    ensures
        message_items(s, acc, pending).0 matches Ok(m) ==> m.attributes.len() > 0
            && m.attributes[0] == acc.attributes[0],
    decreases s.tokens.len() - s.pos,
{
    match peek(s) {
        Err(e) => {},
        Ok(Some(TokenView::Symbol('}'))) => {},
        Ok(_) => match empty_statement_opt(looked(s)) {
            (Err(e), s1) => {},
            (Ok(Some(_)), s1) => {
                if advances(s, s1) {
                    lemma_message_items_keep_source(s1, acc, pending);
                }
            },
            (Ok(None), s1) => {
                if follows(s, s1) {
                    match message_opt(s1) {
                        (Err(e), s2) => {},
                        (Ok(Some(m)), s2) => {
                            if advances(s, s2) {
                                lemma_message_items_keep_source(
                                    s2,
                                    MessageView {
                                        messages: acc.messages.push(
                                            MessageView { attributes: m.attributes + pending, ..m },
                                        ),
                                        ..acc
                                    },
                                    seq![],
                                );
                            }
                        },
                        (Ok(None), s2) => match enum_opt(s2) {
                            (Err(e), s3) => {},
                            (Ok(Some(en)), s3) => {
                                if advances(s, s3) {
                                    lemma_message_items_keep_source(
                                        s3,
                                        MessageView {
                                            enums: acc.enums.push(
                                                EnumerationView {
                                                    attributes: en.attributes + pending,
                                                    ..en
                                                },
                                            ),
                                            ..acc
                                        },
                                        seq![],
                                    );
                                }
                            },
                            (Ok(None), s3) => match option_opt(s3) {
                                (Err(e), s4) => {},
                                (Ok(Some(option)), s4) => {
                                    if advances(s, s4) {
                                        lemma_message_items_keep_source(
                                            s4,
                                            MessageView {
                                                attributes: acc.attributes.push(option),
                                                ..acc
                                            },
                                            pending,
                                        );
                                    }
                                },
                                (Ok(None), s4) => match attribute_opt(s4) {
                                    (Err(e), s5) => {},
                                    (Ok(Some(attr)), s5) => {
                                        if advances(s, s5) {
                                            lemma_message_items_keep_source(
                                                s5,
                                                acc,
                                                pending.push(attr),
                                            );
                                        }
                                    },
                                    (Ok(None), s5) => match field(s5) {
                                        (Err(e), s6) => {},
                                        (Ok(f), s6) => match placed_field(f, acc.fields, pending) {
                                            Err(e) => {},
                                            Ok(placed) => {
                                                if advances(s, s6) {
                                                    lemma_message_items_keep_source(
                                                        s6,
                                                        MessageView {
                                                            fields: acc.fields.push(placed),
                                                            ..acc
                                                        },
                                                        seq![],
                                                    );
                                                }
                                            },
                                        },
                                    },
                                },
                            },
                        },
                    }
                }
            },
        },
    }
}

/// The items of an enumeration leave its first attribute as it is.
pub proof fn lemma_enum_items_keep_source(s: TokenizerView, acc: EnumerationView)
    requires
        acc.attributes.len() > 0,
    ensures
        enum_items(s, acc).0 matches Ok(e) ==> e.attributes.len() > 0 && e.attributes[0]
            == acc.attributes[0],
    decreases s.tokens.len() - s.pos,
{
    match peek(s) {
        Err(e) => {},
        Ok(Some(TokenView::Symbol('}'))) => {},
        Ok(_) => match empty_statement_opt(looked(s)) {
            (Err(e), s1) => {},
            (Ok(Some(_)), s1) => {
                if advances(s, s1) {
                    lemma_enum_items_keep_source(s1, acc);
                }
            },
            (Ok(None), s1) => match option_opt(s1) {
                (Err(e), s2) => {},
                (Ok(Some(attr)), s2) => {
                    if advances(s, s2) {
                        lemma_enum_items_keep_source(
                            s2,
                            EnumerationView { attributes: acc.attributes.push(attr), ..acc },
                        );
                    }
                },
                (Ok(None), s2) => match enum_field(s2) {
                    (Err(e), s3) => {},
                    (Ok(value), s3) => {
                        if advances(s, s3) {
                            lemma_enum_items_keep_source(
                                s3,
                                EnumerationView { values: acc.values.push(value), ..acc },
                            );
                        }
                    },
                },
            },
        },
    }
}

/// Every message, enumeration, service and field that is parsed records
/// where it stands, in the first of its attributes. The fields of a message
/// that is parsed have unique numbers.
pub proof fn law_declarations_record_their_source(s: TokenizerView)
    ensures
        message_opt(s).0 matches Ok(Some(m)) ==> records_source(m.attributes) && distinct_numbers(
            m.fields,
        ),
        enum_opt(s).0 matches Ok(Some(e)) ==> records_source(e.attributes),
        service_opt(s).0 matches Ok(Some(v)) ==> records_source(v.attributes),
        field(s).0 matches Ok(f) ==> records_source(f.attributes),
{
    reveal(enum_opt);
    reveal(service_opt);
    reveal(field);
    let s0 = looked(s);
    // messages
    match tok(ident_if_eq(s, "message"@)) {
        (Ok(true), s1) => match tok(ident_expect(s1)) {
            (Ok(name), s2) => {
                let b0 = looked(s2);
                match tok(symbol_expect(b0, '{')) {
                    (Ok(_), b1) => {
                        let first = empty_message(loc_of(b0));
                        lemma_message_items_keep_source(b1, first, seq![]);
                        law_field_numbers_are_unique(b1, first, seq![]);
                        assert(first.attributes[0] == source_attribute(loc_of(b0)));
                    },
                    _ => {},
                }
            },
            _ => {},
        },
        _ => {},
    }
    // enumerations
    match tok(ident_if_eq(s0, "enum"@)) {
        (Ok(true), s1) => match tok(ident_expect(s1)) {
            (Ok(name), s2) => match tok(symbol_expect(s2, '{')) {
                (Ok(_), s3) => {
                    let first = EnumerationView {
                        name,
                        values: seq![],
                        attributes: seq![source_attribute(loc_of(s0))],
                    };
                    lemma_enum_items_keep_source(s3, first);
                    assert(first.attributes[0] == source_attribute(loc_of(s0)));
                },
                _ => {},
            },
            _ => {},
        },
        _ => {},
    }
    // services and fields
    assert(seq![source_attribute(loc_of(s0))][0] == source_attribute(loc_of(s0)));
}

/// The fields that the items of a message declare, as they are written:
/// each with the number that stands behind its `=`, or with 0 where it has
/// none. `acc` and `pending` are what [`message_items`] starts from.
pub open spec fn fields_as_written(
    s: TokenizerView,
    acc: MessageView,
    pending: Seq<AttributeView>,
) -> Seq<FieldView>
    decreases s.tokens.len() - s.pos,
{
    match peek(s) {
        Err(e) => seq![],
        Ok(Some(TokenView::Symbol('}'))) => seq![],
        Ok(_) => match empty_statement_opt(looked(s)) {
            (Err(e), s1) => seq![],
            (Ok(Some(_)), s1) => if advances(s, s1) {
                fields_as_written(s1, acc, pending)
            } else {
                seq![]
            },
            (Ok(None), s1) => match message_opt(s1) {
                (Err(e), s2) => seq![],
                (Ok(Some(m)), s2) => if advances(s, s2) {
                    fields_as_written(
                        s2,
                        MessageView {
                            messages: acc.messages.push(
                                MessageView { attributes: m.attributes + pending, ..m },
                            ),
                            ..acc
                        },
                        seq![],
                    )
                } else {
                    seq![]
                },
                (Ok(None), s2) => match enum_opt(s2) {
                    (Err(e), s3) => seq![],
                    (Ok(Some(en)), s3) => if advances(s, s3) {
                        fields_as_written(
                            s3,
                            MessageView {
                                enums: acc.enums.push(
                                    EnumerationView { attributes: en.attributes + pending, ..en },
                                ),
                                ..acc
                            },
                            seq![],
                        )
                    } else {
                        seq![]
                    },
                    (Ok(None), s3) => match option_opt(s3) {
                        (Err(e), s4) => seq![],
                        (Ok(Some(option)), s4) => if advances(s, s4) {
                            fields_as_written(
                                s4,
                                MessageView { attributes: acc.attributes.push(option), ..acc },
                                pending,
                            )
                        } else {
                            seq![]
                        },
                        (Ok(None), s4) => match attribute_opt(s4) {
                            (Err(e), s5) => seq![],
                            (Ok(Some(attr)), s5) => if advances(s, s5) {
                                fields_as_written(s5, acc, pending.push(attr))
                            } else {
                                seq![]
                            },
                            (Ok(None), s5) => match field(s5) {
                                (Err(e), s6) => seq![],
                                (Ok(f), s6) => match placed_field(f, acc.fields, pending) {
                                    Err(e) => seq![f],
                                    Ok(placed) => if advances(s, s6) {
                                        seq![f] + fields_as_written(
                                            s6,
                                            MessageView {
                                                fields: acc.fields.push(placed),
                                                ..acc
                                            },
                                            seq![],
                                        )
                                    } else {
                                        seq![f]
                                    },
                                },
                            },
                        },
                    },
                },
            },
        },
    }
}

/// Whether every field of `fields` is written without a number.
pub open spec fn all_omitted(fields: Seq<FieldView>) -> bool {
    forall|i: int| 0 <= i < fields.len() ==> (#[trigger] fields[i]).number == 0
}

/// Where every field of a message is written without a number, the fields
/// of the message are numbered 1, 2, 3 and so on, in the order in which
/// they are declared.
pub proof fn law_omitted_numbers_count_from_one(
    s: TokenizerView,
    acc: MessageView,
    pending: Seq<AttributeView>,
)
    requires
        sequential(acc.fields),
        all_omitted(fields_as_written(s, acc, pending)),
    ensures
        message_items(s, acc, pending).0 matches Ok(m) ==> sequential(m.fields) && m.fields.len()
            == acc.fields.len() + fields_as_written(s, acc, pending).len(),
    decreases s.tokens.len() - s.pos,
{
    match peek(s) {
        Err(e) => {},
        Ok(Some(TokenView::Symbol('}'))) => {},
        Ok(_) => match empty_statement_opt(looked(s)) {
            (Err(e), s1) => {},
            (Ok(Some(_)), s1) => {
                if advances(s, s1) {
                    law_omitted_numbers_count_from_one(s1, acc, pending);
                }
            },
            (Ok(None), s1) => {
                if follows(s, s1) {
                    match message_opt(s1) {
                        (Err(e), s2) => {},
                        (Ok(Some(m)), s2) => {
                            if advances(s, s2) {
                                law_omitted_numbers_count_from_one(
                                    s2,
                                    MessageView {
                                        messages: acc.messages.push(
                                            MessageView { attributes: m.attributes + pending, ..m },
                                        ),
                                        ..acc
                                    },
                                    seq![],
                                );
                            }
                        },
                        (Ok(None), s2) => match enum_opt(s2) {
                            (Err(e), s3) => {},
                            (Ok(Some(en)), s3) => {
                                if advances(s, s3) {
                                    law_omitted_numbers_count_from_one(
                                        s3,
                                        MessageView {
                                            enums: acc.enums.push(
                                                EnumerationView {
                                                    attributes: en.attributes + pending,
                                                    ..en
                                                },
                                            ),
                                            ..acc
                                        },
                                        seq![],
                                    );
                                }
                            },
                            (Ok(None), s3) => match option_opt(s3) {
                                (Err(e), s4) => {},
                                (Ok(Some(option)), s4) => {
                                    if advances(s, s4) {
                                        law_omitted_numbers_count_from_one(
                                            s4,
                                            MessageView {
                                                attributes: acc.attributes.push(option),
                                                ..acc
                                            },
                                            pending,
                                        );
                                    }
                                },
                                (Ok(None), s4) => match attribute_opt(s4) {
                                    (Err(e), s5) => {},
                                    (Ok(Some(attr)), s5) => {
                                        if advances(s, s5) {
                                            law_omitted_numbers_count_from_one(
                                                s5,
                                                acc,
                                                pending.push(attr),
                                            );
                                        }
                                    },
                                    (Ok(None), s5) => match field(s5) {
                                        (Err(e), s6) => {},
                                        (Ok(f), s6) => match placed_field(f, acc.fields, pending) {
                                            Err(e) => {},
                                            Ok(placed) => {
                                                if advances(s, s6) {
                                                    let next = MessageView {
                                                        fields: acc.fields.push(placed),
                                                        ..acc
                                                    };
                                                    let rest = fields_as_written(s6, next, seq![]);
                                                    let all = fields_as_written(s, acc, pending);
                                                    assert(all == seq![f] + rest);
                                                    assert(all[0] == f);
                                                    assert forall|i: int|
                                                        0 <= i < rest.len() implies (
                                                    #[trigger] rest[i]).number == 0 by {
                                                        assert(all[i + 1] == rest[i]);
                                                    }
                                                    assert(placed.number == acc.fields.len() + 1)
                                                        by {
                                                        if number_in_use(
                                                            acc.fields,
                                                            (acc.fields.len() + 1) as u32,
                                                        ) {
                                                            let k = choose|k: int|
                                                                0 <= k < acc.fields.len() && (
                                                                #[trigger] acc.fields[k]).number
                                                                    == (acc.fields.len()
                                                                    + 1) as u32;
                                                            assert(acc.fields[k].number == k + 1);
                                                        }
                                                    }
                                                    assert(sequential(next.fields)) by {
                                                        assert forall|i: int|
                                                            0 <= i < next.fields.len() implies (
                                                        #[trigger] next.fields[i]).number == i
                                                            + 1 by {
                                                            if i < acc.fields.len() {
                                                                assert(next.fields[i]
                                                                    == acc.fields[i]);
                                                            }
                                                        }
                                                    }
                                                    law_omitted_numbers_count_from_one(
                                                        s6,
                                                        next,
                                                        seq![],
                                                    );
                                                }
                                            },
                                        },
                                    },
                                },
                            },
                        },
                    }
                }
            },
        },
    }
}

} // verus!
