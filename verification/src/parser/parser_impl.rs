//! The recursive-descent parser.

use vstd::prelude::*;
use crate::descriptor::{FileDescriptor, FileDescriptorView, Import, ImportVis};
use crate::hashing::{is_sealing, seal_with, sealing_view};
use crate::lexer::ints::neg;
use crate::lexer::loc::Loc;
use crate::lexer::token::{NumLit, ParserLanguage, Token};
use crate::lexer::tokenizer::{
    advances, follows, fresh, remaining, Tokenizer, TokenizerError, TokenizerResult, TokenizerView,
};
use crate::lexer::grammar::lex;
use crate::model::{
    append_viewed, ident_display, lemma_message_view, pair_views, push_pair, push_viewed, views,
    Attribute, Constant, EnumValue, Enumeration, EnumerationView, Field, FieldType, Ident, Message,
    MessageView, Method, Schema, Service,
};
use crate::parser::error::{
    ParserError, ParserErrorView, ParserErrorWithLocation, ParserResult,
};
use crate::parser::syntax::{
    array_field_type_opt, attribute_opt, attribute_values, bool_lit_opt, constant, empty_message,
    empty_statement_opt, enum_close, enum_field, enum_items, enum_number, enum_opt, message_close,
    service_close, enum_value, field, field_number, field_number_opt, field_type, file_items,
    full_ident, full_ident_rest, full_ident_text, import_opt, import_vis, int_lit, label, lit_opt,
    map_field_type_opt, message_body, message_items, message_opt, no_items, num_lit, number_in_use,
    option_opt, package_opt, parse_end, parse_unsealed, placed_field, rpc_input, rpc_opt,
    rpc_output, rpc_returns, service_items, service_opt, signed_constant, signed_num_lit,
    simple_type, source_attribute, statements, FileItems, Occurrence, Parsed,
};
use crate::text::str_eq;

verus! {

/// The parser of one text.
pub struct Parser {
    pub tokenizer: Tokenizer,
}

impl Clone for Parser {
    fn clone(&self) -> (r: Self)
        ensures
            r.tokenizer@ == self.tokenizer@,
    {
        Parser { tokenizer: self.tokenizer.clone() }
    }
}

/// Whether the result `r` and the state `s` are the outcome `p`, for a
/// construct that has a view.
pub open spec fn is_parsed<T: View>(r: ParserResult<T>, s: TokenizerView, p: Parsed<T::V>) -> bool {
    &&& s == p.1
    &&& match p.0 {
        Ok(v) => r matches Ok(x) && x@ == v,
        Err(e) => r matches Err(x) && x@ == e,
    }
}

/// Whether the result `r` and the state `s` are the outcome `p`, for an
/// optional construct that has a view.
pub open spec fn is_parsed_opt<T: View>(
    r: ParserResult<Option<T>>,
    s: TokenizerView,
    p: Parsed<Option<T::V>>,
) -> bool {
    &&& s == p.1
    &&& match p.0 {
        Ok(Some(v)) => r matches Ok(Some(x)) && x@ == v,
        Ok(None) => r matches Ok(None),
        Err(e) => r matches Err(x) && x@ == e,
    }
}

/// Whether the result `r` and the state `s` are the outcome `p`, for a
/// construct that is a plain value.
pub open spec fn is_parsed_value<T>(r: ParserResult<T>, s: TokenizerView, p: Parsed<T>) -> bool {
    &&& s == p.1
    &&& match p.0 {
        Ok(v) => r matches Ok(x) && x == v,
        Err(e) => r matches Err(x) && x@ == e,
    }
}

/// An error of the tokenizer as an error of the parser.
fn te<T>(r: TokenizerResult<T>) -> (out: ParserResult<T>)
    ensures
        match r {
            Ok(v) => out == Ok::<T, ParserError>(v),
            Err(e) => out == Err::<T, ParserError>(ParserError::TokenizerError(e)),
        },
{
    match r {
        Ok(v) => Ok(v),
        Err(e) => Err(ParserError::TokenizerError(e)),
    }
}

/// The attribute that records that a declaration stands at `loc`.
fn attrib_for_loc(loc: &Loc) -> (r: Attribute)
    ensures
        r@ == source_attribute(*loc),
{
    let mut values: Vec<(String, Constant)> = Vec::new();
    values.push(("line".to_string(), Constant::U64(loc.line as u64)));
    values.push(("col".to_string(), Constant::U64(loc.col as u64)));
    let r = Attribute { key: Ident::from_namespace(None, "_source".to_string()), values };
    assert(r@.values =~= source_attribute(*loc).values);
    r
}

/// The type that the keyword `word` names, if it names one.
fn simple_type_of(word: &str) -> (r: Option<FieldType>)
    ensures
        match simple_type(word@) {
            Some(t) => r matches Some(x) && x@ == t,
            None => r is None,
        },
{
    if str_eq(word, "int32") {
        Some(FieldType::Int32)
    } else if str_eq(word, "int64") {
        Some(FieldType::Int64)
    } else if str_eq(word, "uint32") {
        Some(FieldType::Uint32)
    } else if str_eq(word, "uint64") {
        Some(FieldType::Uint64)
    } else if str_eq(word, "int8") {
        Some(FieldType::Int8)
    } else if str_eq(word, "uint8") {
        Some(FieldType::Uint8)
    } else if str_eq(word, "bool") {
        Some(FieldType::Bool)
    } else if str_eq(word, "string") {
        Some(FieldType::String)
    } else if str_eq(word, "bytes") {
        Some(FieldType::Bytes)
    } else if str_eq(word, "float") {
        Some(FieldType::Float32)
    } else if str_eq(word, "float32") {
        Some(FieldType::Float32)
    } else if str_eq(word, "float64") {
        Some(FieldType::Float64)
    } else if str_eq(word, "double") {
        Some(FieldType::Float64)
    } else {
        None
    }
}

/// The number of an enumeration value written as `lit`, behind a `-` where
/// `minus` holds.
fn to_enum_number(minus: bool, lit: u64) -> (r: ParserResult<i32>)
    ensures
        match enum_number(minus, lit) {
            Ok(n) => r matches Ok(x) && x == n,
            Err(e) => r matches Err(x) && x@ == e,
        },
{
    if minus {
        if lit <= 0x7fff_ffff {
            Ok(-(lit as i32))
        } else if lit == 0x8000_0000 {
            Ok(i32::MIN)
        } else {
            Err(ParserError::IntegerOverflow)
        }
    } else {
        if lit <= 0x7fff_ffff {
            Ok(lit as i32)
        } else {
            Err(ParserError::IntegerOverflow)
        }
    }
}

/// Whether a field of `fields` has the number `number`.
fn number_used(fields: &Vec<Field>, number: u32) -> (r: bool)
    ensures
        r == number_in_use(views(fields@), number),
{
    let mut i: usize = 0;
    while i < fields.len()
        invariant
            0 <= i <= fields@.len(),
            forall|k: int| 0 <= k < i ==> (#[trigger] views(fields@)[k]).number != number,
        decreases fields@.len() - i,
    {
        if fields[i].number == number {
            assert(views(fields@)[i as int].number == number);
            return true;
        }
        i = i + 1;
    }
    false
}

/// The field `f` as it joins a message that has the fields `fields`, with the
/// pending attributes `pending`, which are taken.
fn place_field(f: Field, fields: &Vec<Field>, pending: &mut Vec<Attribute>) -> (r: ParserResult<
    Field,
>)
    ensures
        match placed_field(f@, views(fields@), views(old(pending)@)) {
            Ok(placed) => r matches Ok(x) && x@ == placed && final(pending)@ == Seq::<
                Attribute,
            >::empty(),
            Err(e) => r matches Err(x) && x@ == e,
        },
{
    let mut field = f;
    if field.number == 0 {
        if fields.len() >= 0xffff_ffff {
            return Err(ParserError::IntegerOverflow);
        }
        field.number = (fields.len() + 1) as u32;
    }
    if number_used(fields, field.number) {
        return Err(ParserError::DuplicateFieldNumber(field.number));
    }
    append_viewed(&mut field.attributes, pending);
    Ok(field)
}

/// The constant that the numeric literal `n` is behind a sign.
fn to_option_value(n: NumLit, sign_is_plus: bool) -> (r: ParserResult<Constant>)
    ensures
        match signed_constant(n@, sign_is_plus) {
            Ok(c) => r matches Ok(x) && x@ == c,
            Err(e) => r matches Err(x) && x@ == e,
        },
{
    match n {
        NumLit::U64(u) => {
            if sign_is_plus {
                Ok(Constant::U64(u))
            } else {
                match neg(u) {
                    Ok(i) => Ok(Constant::I64(i)),
                    Err(_) => Err(ParserError::IntegerOverflow),
                }
            }
        },
        NumLit::F64(f) => {
            if sign_is_plus {
                Ok(Constant::F64(f))
            } else {
                let mut text = String::new();
                text.push('-');
                text.append(f.as_str());
                assert(text@ =~= seq!['-'] + f@);
                Ok(Constant::F64(text))
            }
        },
    }
}

impl Parser {
    /// A parser at the start of `input`.
    pub fn new(input: &str) -> (r: Parser)
        ensures
            r.tokenizer@ == fresh(lex(input@, ParserLanguage::Proto)),
    {
        Parser { tokenizer: Tokenizer::new(input, ParserLanguage::Proto) }
    }

    /// A path: identifiers separated by `.` or `::`.
    pub fn next_full_ident(&mut self) -> (r: ParserResult<Ident>)
        ensures
            is_parsed(r, final(self).tokenizer@, full_ident(old(self).tokenizer@)),
            follows(old(self).tokenizer@, final(self).tokenizer@),
            r is Ok ==> advances(old(self).tokenizer@, final(self).tokenizer@),
    {
        proof {
            reveal(full_ident);
            reveal(full_ident_text);
        }
        self.tokenizer.well_formed();
        let mut path = te(self.tokenizer.next_ident())?;
        loop
            invariant
                advances(old(self).tokenizer@, self.tokenizer@),
                full_ident_text(old(self).tokenizer@) == full_ident_rest(
                    self.tokenizer@,
                    path@,
                ),
            decreases remaining(self.tokenizer@),
        {
            proof {
                reveal(full_ident);
                reveal(full_ident_text);
            }
            let separator = match te(self.tokenizer.lookahead())? {
                Some(Token::DoubleColon) => true,
                Some(Token::Symbol(c)) => *c == '.',
                _ => false,
            };
            if !separator {
                return Ok(Ident::new(path.as_str()));
            }
            let ghost before = path@;
            let _ = te(self.tokenizer.advance())?;
            let part = te(self.tokenizer.next_ident())?;
            path.push('.');
            path.append(part.as_str());
            assert(path@ =~= before + seq!['.'] + part@);
        }
    }

    /// The empty statement `;`, if it comes next.
    pub fn next_empty_statement_opt(&mut self) -> (r: ParserResult<Option<()>>)
        ensures
            is_parsed_value(
                r,
                final(self).tokenizer@,
                empty_statement_opt(old(self).tokenizer@),
            ),
            follows(old(self).tokenizer@, final(self).tokenizer@),
            r matches Ok(Some(_)) ==> advances(old(self).tokenizer@, final(self).tokenizer@),
    {
        proof {
            reveal(empty_statement_opt);
        }
        self.tokenizer.well_formed();
        if te(self.tokenizer.next_symbol_if_eq(';'))? {
            Ok(Some(()))
        } else {
            Ok(None)
        }
    }

    /// One of the words `true` and `false`, if it comes next.
    pub fn next_bool_lit_opt(&mut self) -> (r: ParserResult<Option<bool>>)
        ensures
            is_parsed_value(r, final(self).tokenizer@, bool_lit_opt(old(self).tokenizer@)),
            follows(old(self).tokenizer@, final(self).tokenizer@),
            r matches Ok(Some(_)) ==> advances(old(self).tokenizer@, final(self).tokenizer@),
    {
        proof {
            reveal(bool_lit_opt);
        }
        self.tokenizer.well_formed();
        if te(self.tokenizer.next_ident_if_eq("true"))? {
            Ok(Some(true))
        } else if te(self.tokenizer.next_ident_if_eq("false"))? {
            Ok(Some(false))
        } else {
            Ok(None)
        }
    }

    /// A numeric literal, which must come next.
    pub fn next_num_lit(&mut self) -> (r: ParserResult<NumLit>)
        ensures
            is_parsed(r, final(self).tokenizer@, num_lit(old(self).tokenizer@)),
            follows(old(self).tokenizer@, final(self).tokenizer@),
            r is Ok ==> advances(old(self).tokenizer@, final(self).tokenizer@),
    {
        proof {
            reveal(num_lit);
        }
        self.tokenizer.well_formed();
        let n = match te(self.tokenizer.lookahead_some())?.to_num_lit() {
            Ok(n) => n,
            Err(e) => {
                return Err(ParserError::LexerError(e));
            },
        };
        let _ = te(self.tokenizer.advance())?;
        Ok(n)
    }

    /// A numeric literal, which must come next, as a constant with the given sign.
    fn next_signed_num_lit(&mut self, sign_is_plus: bool) -> (r: ParserResult<Option<Constant>>)
        ensures
            is_parsed_opt(
                r,
                final(self).tokenizer@,
                signed_num_lit(old(self).tokenizer@, sign_is_plus),
            ),
            follows(old(self).tokenizer@, final(self).tokenizer@),
            r is Ok ==> advances(old(self).tokenizer@, final(self).tokenizer@),
    {
        proof {
            reveal(signed_num_lit);
        }
        let n = self.next_num_lit()?;
        match to_option_value(n, sign_is_plus) {
            Ok(c) => Ok(Some(c)),
            Err(e) => Err(e),
        }
    }

    /// A literal, if one comes next.
    pub fn next_lit_opt(&mut self) -> (r: ParserResult<Option<Constant>>)
        ensures
            is_parsed_opt(r, final(self).tokenizer@, lit_opt(old(self).tokenizer@)),
            follows(old(self).tokenizer@, final(self).tokenizer@),
            r matches Ok(Some(_)) ==> advances(old(self).tokenizer@, final(self).tokenizer@),
    {
        proof {
            reveal(lit_opt);
        }
        self.tokenizer.well_formed();
        if let Some(b) = self.next_bool_lit_opt()? {
            return Ok(Some(Constant::Bool(b)));
        }
        let (sign, text, number) = match te(self.tokenizer.lookahead_some())? {
            Token::Symbol(c) => (if *c == '+' || *c == '-' {
                Some(*c == '+')
            } else {
                None
            }, None, false),
            Token::StrLit(s) => (None, Some(s.quoted()), false),
            Token::IntLit(_) => (None, None, true),
            Token::FloatLit(_) => (None, None, true),
            _ => (None, None, false),
        };
        if let Some(sign_is_plus) = sign {
            let _ = te(self.tokenizer.advance())?;
            return self.next_signed_num_lit(sign_is_plus);
        }
        if let Some(quoted) = text {
            let _ = te(self.tokenizer.advance())?;
            return Ok(Some(Constant::String(quoted)));
        }
        if number {
            return self.next_signed_num_lit(true);
        }
        Ok(None)
    }

    /// A constant, which must come next: a literal, or a path.
    pub fn next_constant(&mut self) -> (r: ParserResult<Constant>)
        ensures
            is_parsed(r, final(self).tokenizer@, constant(old(self).tokenizer@)),
            follows(old(self).tokenizer@, final(self).tokenizer@),
            r is Ok ==> advances(old(self).tokenizer@, final(self).tokenizer@),
    {
        proof {
            reveal(constant);
        }
        self.tokenizer.well_formed();
        if let Some(lit) = self.next_lit_opt()? {
            return Ok(lit);
        }
        let is_ident = match te(self.tokenizer.lookahead_some())? {
            Token::Ident(_) => true,
            _ => false,
        };
        if is_ident {
            return Ok(Constant::Ident(self.next_full_ident()?));
        }
        Err(ParserError::ExpectConstant)
    }

    /// An integer literal, which must come next.
    pub fn next_int_lit(&mut self) -> (r: ParserResult<u64>)
        ensures
            is_parsed_value(r, final(self).tokenizer@, int_lit(old(self).tokenizer@)),
            follows(old(self).tokenizer@, final(self).tokenizer@),
            r is Ok ==> advances(old(self).tokenizer@, final(self).tokenizer@),
    {
        proof {
            reveal(int_lit);
        }
        self.tokenizer.well_formed();
        let i = match te(self.tokenizer.lookahead_some())? {
            Token::IntLit(i) => *i,
            _ => {
                return Err(ParserError::IncorrectInput);
            },
        };
        let _ = te(self.tokenizer.advance())?;
        Ok(i)
    }

    /// The visibility word of an import, if one is there.
    fn next_import_vis(&mut self) -> (r: ParserResult<ImportVis>)
        ensures
            is_parsed_value(r, final(self).tokenizer@, import_vis(old(self).tokenizer@)),
            follows(old(self).tokenizer@, final(self).tokenizer@),
    {
        proof {
            reveal(import_vis);
        }
        self.tokenizer.well_formed();
        if te(self.tokenizer.next_ident_if_eq("weak"))? {
            Ok(ImportVis::Weak)
        } else if te(self.tokenizer.next_ident_if_eq("public"))? {
            Ok(ImportVis::Public)
        } else {
            Ok(ImportVis::Default)
        }
    }

    /// An import statement, if `import` comes next.
    pub fn next_import_opt(&mut self) -> (r: ParserResult<Option<Import>>)
        ensures
            is_parsed_opt(r, final(self).tokenizer@, import_opt(old(self).tokenizer@)),
            follows(old(self).tokenizer@, final(self).tokenizer@),
            r matches Ok(Some(_)) ==> advances(old(self).tokenizer@, final(self).tokenizer@),
    {
        proof {
            reveal(import_opt);
        }
        self.tokenizer.well_formed();
        if te(self.tokenizer.next_ident_if_eq("import"))? {
            let vis = self.next_import_vis()?;
            let path = match te(self.tokenizer.next_str_lit())?.decode_utf8() {
                Ok(path) => path,
                Err(e) => {
                    return Err(ParserError::StrLitDecodeError(e));
                },
            };
            te(self.tokenizer.next_symbol_expect_eq(';'))?;
            Ok(Some(Import { path, vis }))
        } else {
            Ok(None)
        }
    }

    /// A `package` statement, if `package` comes next.
    pub fn next_package_opt(&mut self) -> (r: ParserResult<Option<Ident>>)
        ensures
            is_parsed_opt(r, final(self).tokenizer@, package_opt(old(self).tokenizer@)),
            follows(old(self).tokenizer@, final(self).tokenizer@),
            r matches Ok(Some(_)) ==> advances(old(self).tokenizer@, final(self).tokenizer@),
    {
        proof {
            reveal(package_opt);
        }
        self.tokenizer.well_formed();
        if te(self.tokenizer.next_ident_if_eq("package"))? {
            let package = self.next_full_ident()?;
            te(self.tokenizer.next_symbol_expect_eq(';'))?;
            Ok(Some(package))
        } else {
            Ok(None)
        }
    }

    /// The values of an attribute, behind its `(` and up to its `)`.
    fn next_attribute_values(&mut self) -> (r: ParserResult<Vec<(String, Constant)>>)
        ensures
            final(self).tokenizer@ == attribute_values(old(self).tokenizer@, seq![]).1,
            match attribute_values(old(self).tokenizer@, seq![]).0 {
                Ok(pairs) => r matches Ok(v) && pair_views(v@) == pairs,
                Err(e) => r matches Err(x) && x@ == e,
            },
            follows(old(self).tokenizer@, final(self).tokenizer@),
            r is Ok ==> advances(old(self).tokenizer@, final(self).tokenizer@),
    {
        self.tokenizer.well_formed();
        let mut values: Vec<(String, Constant)> = Vec::new();
        assert(pair_views(values@) =~= seq![]);
        loop
            invariant
                follows(old(self).tokenizer@, self.tokenizer@),
                attribute_values(old(self).tokenizer@, seq![]) == attribute_values(
                    self.tokenizer@,
                    pair_views(values@),
                ),
            decreases remaining(self.tokenizer@),
        {
            if te(self.tokenizer.next_symbol_if_eq(')'))? {
                return Ok(values);
            }
            if let Some(lit) = self.next_lit_opt()? {
                push_pair(&mut values, "_".to_string(), lit);
                let _ = te(self.tokenizer.next_symbol_if_eq(','))?;
                continue ;
            }
            let name = te(self.tokenizer.next_ident())?;
            if te(self.tokenizer.next_symbol_if_eq(','))? {
                push_pair(&mut values, name, Constant::Bool(true));
                continue ;
            }
            if te(self.tokenizer.next_symbol_if_eq(')'))? {
                push_pair(&mut values, name, Constant::Bool(true));
                return Ok(values);
            }
            te(self.tokenizer.next_symbol_expect_eq('='))?;
            let value = self.next_constant()?;
            let _ = te(self.tokenizer.next_symbol_if_eq(','))?;
            push_pair(&mut values, name, value);
        }
    }

    /// An attribute, if `@` comes next.
    pub fn next_attribute_opt(&mut self) -> (r: ParserResult<Option<Attribute>>)
        ensures
            is_parsed_opt(r, final(self).tokenizer@, attribute_opt(old(self).tokenizer@)),
            follows(old(self).tokenizer@, final(self).tokenizer@),
            r matches Ok(Some(_)) ==> advances(old(self).tokenizer@, final(self).tokenizer@),
    {
        proof {
            reveal(attribute_opt);
        }
        self.tokenizer.well_formed();
        if te(self.tokenizer.next_symbol_if_eq('@'))? {
            let key = self.next_full_ident()?;
            let values = if te(self.tokenizer.next_symbol_if_eq('('))? {
                self.next_attribute_values()?
            } else {
                let values: Vec<(String, Constant)> = Vec::new();
                assert(pair_views(values@) =~= seq![]);
                values
            };
            let _ = self.tokenizer.next_symbol_if_eq(';');
            Ok(Some(Attribute { key, values }))
        } else {
            Ok(None)
        }
    }

    /// An `option` statement, if `option` comes next, as an attribute.
    pub fn next_option_opt(&mut self) -> (r: ParserResult<Option<Attribute>>)
        ensures
            is_parsed_opt(r, final(self).tokenizer@, option_opt(old(self).tokenizer@)),
            follows(old(self).tokenizer@, final(self).tokenizer@),
            r matches Ok(Some(_)) ==> advances(old(self).tokenizer@, final(self).tokenizer@),
    {
        proof {
            reveal(option_opt);
        }
        self.tokenizer.well_formed();
        if te(self.tokenizer.next_ident_if_eq("option"))? {
            let name = self.next_full_ident()?;
            te(self.tokenizer.next_symbol_expect_eq('='))?;
            let value = self.next_constant()?;
            te(self.tokenizer.next_symbol_expect_eq(';'))?;
            let mut values: Vec<(String, Constant)> = Vec::new();
            assert(pair_views(values@) =~= seq![]);
            push_pair(&mut values, name.display(), value);
            let attr = Attribute { key: Ident::from_namespace(None, "option".to_string()), values };
            assert(attr@.values =~= seq![(ident_display(name@), value@)]);
            Ok(Some(attr))
        } else {
            Ok(None)
        }
    }

    /// One of the labels `optional`, `required` and `repeated`, if it comes
    /// next. Where none does, the tokenizer is left as it was.
    pub fn next_label(&mut self) -> (r: ParserResult<Option<Occurrence>>)
        ensures
            is_parsed_value(r, final(self).tokenizer@, label(old(self).tokenizer@)),
            follows(old(self).tokenizer@, final(self).tokenizer@),
            r matches Ok(Some(_)) ==> advances(old(self).tokenizer@, final(self).tokenizer@),
    {
        proof {
            reveal(label);
        }
        let mark = self.tokenizer.mark();
        match self.tokenizer.next_ident_if_eq("optional") {
            Err(e) => {
                self.tokenizer.rewind(mark);
                return Err(ParserError::TokenizerError(e));
            },
            Ok(true) => {
                return Ok(Some(Occurrence::Optional));
            },
            Ok(false) => {},
        }
        match self.tokenizer.next_ident_if_eq("required") {
            Err(e) => {
                self.tokenizer.rewind(mark);
                return Err(ParserError::TokenizerError(e));
            },
            Ok(true) => {
                return Ok(Some(Occurrence::Required));
            },
            Ok(false) => {},
        }
        match self.tokenizer.next_ident_if_eq("repeated") {
            Err(e) => {
                self.tokenizer.rewind(mark);
                return Err(ParserError::TokenizerError(e));
            },
            Ok(true) => {
                return Ok(Some(Occurrence::Repeated));
            },
            Ok(false) => {},
        }
        self.tokenizer.rewind(mark);
        Ok(None)
    }

    /// A type, which must come next.
    pub fn next_field_type(&mut self) -> (r: ParserResult<FieldType>)
        ensures
            is_parsed(r, final(self).tokenizer@, field_type(old(self).tokenizer@)),
            follows(old(self).tokenizer@, final(self).tokenizer@),
            r is Ok ==> advances(old(self).tokenizer@, final(self).tokenizer@),
        decreases remaining(old(self).tokenizer@), 1int,
    {
        self.tokenizer.well_formed();
        let (simple, is_ident) = match te(self.tokenizer.lookahead())? {
            Some(Token::Ident(word)) => (simple_type_of(word.as_str()), true),
            _ => (None, false),
        };
        if let Some(t) = simple {
            let _ = te(self.tokenizer.advance())?;
            return Ok(t);
        }
        if is_ident {
            if let Some(t) = self.next_map_field_type_opt()? {
                return Ok(t);
            }
        } else {
            if let Some(t) = self.next_array_field_type_opt()? {
                return Ok(t);
            }
        }
        Ok(FieldType::ObjectOrEnum(self.next_full_ident()?))
    }

    /// The number of a field, which must come next. A number that does not
    /// fit 32 bits is an overflow.
    pub fn next_field_number(&mut self) -> (r: ParserResult<u32>)
        ensures
            is_parsed_value(r, final(self).tokenizer@, field_number(old(self).tokenizer@)),
            follows(old(self).tokenizer@, final(self).tokenizer@),
            r is Ok ==> advances(old(self).tokenizer@, final(self).tokenizer@),
    {
        proof {
            reveal(field_number);
            reveal(int_lit);
        }
        let i = self.next_int_lit()?;
        if i <= 0xffff_ffff {
            Ok(i as u32)
        } else {
            Err(ParserError::IntegerOverflow)
        }
    }

    /// A map type, if `map` comes next.
    pub fn next_map_field_type_opt(&mut self) -> (r: ParserResult<Option<FieldType>>)
        ensures
            is_parsed_opt(r, final(self).tokenizer@, map_field_type_opt(old(self).tokenizer@)),
            follows(old(self).tokenizer@, final(self).tokenizer@),
            r matches Ok(Some(_)) ==> advances(old(self).tokenizer@, final(self).tokenizer@),
        decreases remaining(old(self).tokenizer@), 0int,
    {
        self.tokenizer.well_formed();
        if te(self.tokenizer.next_ident_if_eq("map"))? {
            te(self.tokenizer.next_symbol_expect_eq('<'))?;
            let key = self.next_field_type()?;
            if !key.is_integer() && !matches!(&key, FieldType::String) {
                return Err(ParserError::MapKeyType);
            }
            te(self.tokenizer.next_symbol_expect_eq(','))?;
            let value = self.next_field_type()?;
            te(self.tokenizer.next_symbol_expect_eq('>'))?;
            Ok(Some(FieldType::Mapping(Box::new((key, value)))))
        } else {
            Ok(None)
        }
    }

    /// An array type, if `[` comes next.
    pub fn next_array_field_type_opt(&mut self) -> (r: ParserResult<Option<FieldType>>)
        ensures
            is_parsed_opt(
                r,
                final(self).tokenizer@,
                array_field_type_opt(old(self).tokenizer@),
            ),
            follows(old(self).tokenizer@, final(self).tokenizer@),
            r matches Ok(Some(_)) ==> advances(old(self).tokenizer@, final(self).tokenizer@),
        decreases remaining(old(self).tokenizer@), 0int,
    {
        self.tokenizer.well_formed();
        if te(self.tokenizer.next_symbol_if_eq('['))? {
            let item_type = self.next_field_type()?;
            te(self.tokenizer.next_symbol_expect_eq(']'))?;
            Ok(Some(FieldType::Array(Box::new(item_type))))
        } else {
            Ok(None)
        }
    }

    /// `=` and a number, or nothing, which stands for the number 0.
    fn next_field_number_opt(&mut self) -> (r: ParserResult<u32>)
        ensures
            is_parsed_value(r, final(self).tokenizer@, field_number_opt(old(self).tokenizer@)),
            follows(old(self).tokenizer@, final(self).tokenizer@),
    {
        proof {
            reveal(field_number_opt);
        }
        self.tokenizer.well_formed();
        if te(self.tokenizer.next_symbol_if_eq('='))? {
            self.next_field_number()
        } else {
            Ok(0)
        }
    }

    /// A field, which must come next.
    pub fn next_field(&mut self) -> (r: ParserResult<Field>)
        ensures
            is_parsed(r, final(self).tokenizer@, field(old(self).tokenizer@)),
            follows(old(self).tokenizer@, final(self).tokenizer@),
            r is Ok ==> advances(old(self).tokenizer@, final(self).tokenizer@),
    {
        proof {
            reveal(field);
        }
        self.tokenizer.well_formed();
        let loc = self.tokenizer.lookahead_loc();
        let mut attributes: Vec<Attribute> = Vec::new();
        attributes.push(attrib_for_loc(&loc));
        let occurrence = self.next_label()?;
        let repeated = matches!(occurrence, Some(Occurrence::Repeated));
        let t = self.next_field_type()?;
        let typ = if repeated {
            if matches!(&t, FieldType::Array(_)) {
                return Err(ParserError::RepeatedArray);
            }
            FieldType::Array(Box::new(t))
        } else {
            t
        };
        let name = te(self.tokenizer.next_ident())?;
        let mark = te(self.tokenizer.next_symbol_if_eq('?'))?;
        let optional = mark || matches!(occurrence, Some(Occurrence::Optional));
        let number = self.next_field_number_opt()?;
        te(self.tokenizer.next_symbol_expect_eq(';'))?;
        let field = Field { name, optional, typ, number, attributes };
        assert(field@.attributes =~= seq![source_attribute(loc)]);
        Ok(field)
    }

    /// The number of an enumeration value, which must come next.
    pub fn next_enum_value(&mut self) -> (r: ParserResult<i32>)
        ensures
            is_parsed_value(r, final(self).tokenizer@, enum_value(old(self).tokenizer@)),
            follows(old(self).tokenizer@, final(self).tokenizer@),
            r is Ok ==> advances(old(self).tokenizer@, final(self).tokenizer@),
    {
        proof {
            reveal(enum_value);
        }
        self.tokenizer.well_formed();
        let minus = te(self.tokenizer.next_symbol_if_eq('-'))?;
        let lit = self.next_int_lit()?;
        to_enum_number(minus, lit)
    }

    /// A value of an enumeration, which must come next.
    pub fn next_enum_field(&mut self) -> (r: ParserResult<EnumValue>)
        ensures
            is_parsed(r, final(self).tokenizer@, enum_field(old(self).tokenizer@)),
            follows(old(self).tokenizer@, final(self).tokenizer@),
            r is Ok ==> advances(old(self).tokenizer@, final(self).tokenizer@),
    {
        proof {
            reveal(enum_field);
        }
        self.tokenizer.well_formed();
        let name = te(self.tokenizer.next_ident())?;
        te(self.tokenizer.next_symbol_expect_eq('='))?;
        let number = self.next_enum_value()?;
        let value = EnumValue { name, number, attributes: Vec::new() };
        assert(value@.attributes =~= seq![]);
        Ok(value)
    }

    /// An enumeration, if `enum` comes next.
    pub fn next_enum_opt(&mut self) -> (r: ParserResult<Option<Enumeration>>)
        ensures
            is_parsed_opt(r, final(self).tokenizer@, enum_opt(old(self).tokenizer@)),
            follows(old(self).tokenizer@, final(self).tokenizer@),
            r matches Ok(Some(_)) ==> advances(old(self).tokenizer@, final(self).tokenizer@),
    {
        proof {
            reveal(enum_opt);
        }
        self.tokenizer.well_formed();
        let loc = self.tokenizer.lookahead_loc();
        if !te(self.tokenizer.next_ident_if_eq("enum"))? {
            return Ok(None);
        }
        let name = te(self.tokenizer.next_ident())?;
        te(self.tokenizer.next_symbol_expect_eq('{'))?;
        let mut values: Vec<EnumValue> = Vec::new();
        let mut attributes: Vec<Attribute> = Vec::new();
        attributes.push(attrib_for_loc(&loc));
        let ghost start = self.tokenizer@;
        let ghost first = EnumerationView {
            name: name@,
            values: seq![],
            attributes: seq![source_attribute(loc)],
        };
        assert(views(values@) =~= seq![]);
        assert(views(attributes@) =~= seq![source_attribute(loc)]);
        loop
            invariant
                advances(old(self).tokenizer@, start),
                follows(start, self.tokenizer@),
                enum_opt(old(self).tokenizer@) == enum_close(enum_items(start, first)),
                enum_items(start, first) == enum_items(
                    self.tokenizer@,
                    EnumerationView {
                        name: name@,
                        values: views(values@),
                        attributes: views(attributes@),
                    },
                ),
            decreases remaining(self.tokenizer@),
        {
            proof {
                reveal(enum_opt);
                reveal(empty_statement_opt);
            }
            if let Some(c) = te(self.tokenizer.lookahead_if_symbol())? {
                if c == '}' {
                    te(self.tokenizer.next_symbol_expect_eq('}'))?;
                    return Ok(Some(Enumeration { name, values, attributes }));
                }
            }
            if te(self.tokenizer.next_symbol_if_eq(';'))? {
                continue ;
            }
            if let Some(attr) = self.next_option_opt()? {
                push_viewed(&mut attributes, attr);
                continue ;
            }
            let value = self.next_enum_field()?;
            push_viewed(&mut values, value);
        }
    }

    /// The body of a message, which must come next. The message has no name yet.
    pub fn next_message_body(&mut self) -> (r: ParserResult<Message>)
        ensures
            is_parsed(r, final(self).tokenizer@, message_body(old(self).tokenizer@)),
            follows(old(self).tokenizer@, final(self).tokenizer@),
            r is Ok ==> advances(old(self).tokenizer@, final(self).tokenizer@),
        decreases remaining(old(self).tokenizer@), 2int,
    {
        self.tokenizer.well_formed();
        let loc = self.tokenizer.lookahead_loc();
        te(self.tokenizer.next_symbol_expect_eq('{'))?;
        let mut fields: Vec<Field> = Vec::new();
        let mut messages: Vec<Message> = Vec::new();
        let mut enums: Vec<Enumeration> = Vec::new();
        let mut attributes: Vec<Attribute> = Vec::new();
        attributes.push(attrib_for_loc(&loc));
        let mut item_attributes: Vec<Attribute> = Vec::new();
        let ghost start = self.tokenizer@;
        assert(views(fields@) =~= seq![]);
        assert(views(messages@) =~= seq![]);
        assert(views(enums@) =~= seq![]);
        assert(views(item_attributes@) =~= seq![]);
        assert(views(attributes@) =~= seq![source_attribute(loc)]);
        loop
            invariant
                advances(old(self).tokenizer@, start),
                follows(start, self.tokenizer@),
                message_body(old(self).tokenizer@) == message_close(
                    message_items(start, empty_message(loc), seq![]),
                ),
                message_items(start, empty_message(loc), seq![]) == message_items(
                    self.tokenizer@,
                    MessageView {
                        name: empty_message(loc).name,
                        fields: views(fields@),
                        messages: views(messages@),
                        enums: views(enums@),
                        attributes: views(attributes@),
                    },
                    views(item_attributes@),
                ),
            decreases remaining(self.tokenizer@),
        {
            proof {
                reveal(empty_statement_opt);
            }
            if let Some(c) = te(self.tokenizer.lookahead_if_symbol())? {
                if c == '}' {
                    if item_attributes.len() > 0 {
                        return Err(ParserError::DanglingAttributes);
                    }
                    te(self.tokenizer.next_symbol_expect_eq('}'))?;
                    let message = Message {
                        name: Ident::from_namespace(None, String::new()),
                        fields,
                        messages,
                        enums,
                        attributes,
                    };
                    proof {
                        lemma_message_view(message);
                    }
                    return Ok(message);
                }
            }
            if te(self.tokenizer.next_symbol_if_eq(';'))? {
                continue ;
            }
            if let Some(nested) = self.next_message_opt()? {
                let mut nested = nested;
                let ghost before = nested;
                append_viewed(&mut nested.attributes, &mut item_attributes);
                proof {
                    lemma_message_view(before);
                    lemma_message_view(nested);
                    assert(views(item_attributes@) =~= seq![]);
                }
                push_viewed(&mut messages, nested);
                continue ;
            }
            if let Some(nested) = self.next_enum_opt()? {
                let mut nested = nested;
                append_viewed(&mut nested.attributes, &mut item_attributes);
                assert(views(item_attributes@) =~= seq![]);
                push_viewed(&mut enums, nested);
                continue ;
            }
            if let Some(option) = self.next_option_opt()? {
                push_viewed(&mut attributes, option);
                continue ;
            }
            if let Some(attr) = self.next_attribute_opt()? {
                push_viewed(&mut item_attributes, attr);
                continue ;
            }
            let field = self.next_field()?;
            let placed = place_field(field, &fields, &mut item_attributes)?;
            assert(views(item_attributes@) =~= seq![]);
            push_viewed(&mut fields, placed);
        }
    }

    /// A message, if `message` comes next.
    pub fn next_message_opt(&mut self) -> (r: ParserResult<Option<Message>>)
        ensures
            is_parsed_opt(r, final(self).tokenizer@, message_opt(old(self).tokenizer@)),
            follows(old(self).tokenizer@, final(self).tokenizer@),
            r matches Ok(Some(_)) ==> advances(old(self).tokenizer@, final(self).tokenizer@),
        decreases remaining(old(self).tokenizer@), 0int,
    {
        self.tokenizer.well_formed();
        if te(self.tokenizer.next_ident_if_eq("message"))? {
            let name = Ident::from_namespace(None, te(self.tokenizer.next_ident())?);
            let mut message = self.next_message_body()?;
            let ghost before = message;
            message.name = name;
            proof {
                lemma_message_view(before);
                lemma_message_view(message);
            }
            Ok(Some(message))
        } else {
            Ok(None)
        }
    }

    /// The argument of a method, behind its `(`.
    fn next_rpc_input(&mut self) -> (r: ParserResult<Option<FieldType>>)
        ensures
            is_parsed_opt(r, final(self).tokenizer@, rpc_input(old(self).tokenizer@)),
            follows(old(self).tokenizer@, final(self).tokenizer@),
    {
        proof {
            reveal(rpc_input);
        }
        self.tokenizer.well_formed();
        if te(self.tokenizer.next_symbol_if_eq(')'))? {
            Ok(None)
        } else {
            let arg = self.next_field_type()?;
            te(self.tokenizer.next_symbol_expect_eq(')'))?;
            Ok(Some(arg))
        }
    }

    /// Whether `->` or `returns` comes next, which is then consumed.
    fn next_rpc_returns(&mut self) -> (r: ParserResult<bool>)
        ensures
            is_parsed_value(r, final(self).tokenizer@, rpc_returns(old(self).tokenizer@)),
            follows(old(self).tokenizer@, final(self).tokenizer@),
    {
        proof {
            reveal(rpc_returns);
        }
        self.tokenizer.well_formed();
        let arrow = match te(self.tokenizer.lookahead())? {
            Some(Token::FnReturns) => true,
            _ => false,
        };
        if arrow {
            let _ = te(self.tokenizer.advance())?;
            Ok(true)
        } else {
            te(self.tokenizer.next_ident_if_eq("returns"))
        }
    }

    /// The result of a method, behind `->` or `returns`.
    fn next_rpc_output(&mut self) -> (r: ParserResult<Option<FieldType>>)
        ensures
            is_parsed_opt(r, final(self).tokenizer@, rpc_output(old(self).tokenizer@)),
            follows(old(self).tokenizer@, final(self).tokenizer@),
    {
        proof {
            reveal(rpc_output);
        }
        self.tokenizer.well_formed();
        if te(self.tokenizer.next_symbol_if_eq('('))? {
            self.next_rpc_input()
        } else {
            Ok(Some(self.next_field_type()?))
        }
    }

    /// A method, if `rpc` comes next.
    pub fn next_rpc_opt(&mut self) -> (r: ParserResult<Option<Method>>)
        ensures
            is_parsed_opt(r, final(self).tokenizer@, rpc_opt(old(self).tokenizer@)),
            follows(old(self).tokenizer@, final(self).tokenizer@),
            r matches Ok(Some(_)) ==> advances(old(self).tokenizer@, final(self).tokenizer@),
    {
        proof {
            reveal(rpc_opt);
        }
        self.tokenizer.well_formed();
        if te(self.tokenizer.next_ident_if_eq("rpc"))? {
            let name = te(self.tokenizer.next_ident())?;
            te(self.tokenizer.next_symbol_expect_eq('('))?;
            let input_type = self.next_rpc_input()?;
            let output_type = if self.next_rpc_returns()? {
                self.next_rpc_output()?
            } else {
                None
            };
            te(self.tokenizer.next_symbol_expect_eq(';'))?;
            let method = Method { name, input_type, output_type, attributes: Vec::new() };
            assert(method@.attributes =~= seq![]);
            Ok(Some(method))
        } else {
            Ok(None)
        }
    }

    /// A service, if `service` comes next.
    pub fn next_service_opt(&mut self) -> (r: ParserResult<Option<Service>>)
        ensures
            is_parsed_opt(r, final(self).tokenizer@, service_opt(old(self).tokenizer@)),
            follows(old(self).tokenizer@, final(self).tokenizer@),
            r matches Ok(Some(_)) ==> advances(old(self).tokenizer@, final(self).tokenizer@),
    {
        proof {
            reveal(service_opt);
        }
        self.tokenizer.well_formed();
        let loc = self.tokenizer.lookahead_loc();
        if !te(self.tokenizer.next_ident_if_eq("service"))? {
            return Ok(None);
        }
        let name = Ident { namespace: None, name: te(self.tokenizer.next_ident())? };
        let mut methods: Vec<Method> = Vec::new();
        let mut attributes: Vec<Attribute> = Vec::new();
        attributes.push(attrib_for_loc(&loc));
        let mut item_attributes: Vec<Attribute> = Vec::new();
        te(self.tokenizer.next_symbol_expect_eq('{'))?;
        let ghost start = self.tokenizer@;
        assert(views(methods@) =~= seq![]);
        assert(views(item_attributes@) =~= seq![]);
        assert(views(attributes@) =~= seq![source_attribute(loc)]);
        loop
            invariant
                advances(old(self).tokenizer@, start),
                follows(start, self.tokenizer@),
                name.namespace is None,
                views(attributes@) == seq![source_attribute(loc)],
                service_opt(old(self).tokenizer@) == service_close(
                    service_items(start, seq![], seq![]),
                    name.name@,
                    loc,
                ),
                service_items(start, seq![], seq![]) == service_items(
                    self.tokenizer@,
                    views(methods@),
                    views(item_attributes@),
                ),
            decreases remaining(self.tokenizer@),
        {
            if let Some(c) = te(self.tokenizer.lookahead_if_symbol())? {
                if c == '}' {
                    if item_attributes.len() > 0 {
                        return Err(ParserError::DanglingAttributes);
                    }
                    te(self.tokenizer.next_symbol_expect_eq('}'))?;
                    return Ok(
                        Some(Service { name, methods, attributes, schema: None, schema_id: None }),
                    );
                }
            }
            if let Some(method) = self.next_rpc_opt()? {
                let mut method = method;
                append_viewed(&mut method.attributes, &mut item_attributes);
                assert(views(item_attributes@) =~= seq![]);
                push_viewed(&mut methods, method);
                continue ;
            }
            if let Some(a) = self.next_attribute_opt()? {
                push_viewed(&mut item_attributes, a);
                continue ;
            }
            if let Some(_) = self.next_empty_statement_opt()? {
                continue ;
            }
            return Err(ParserError::IncorrectInput);
        }
    }

    /// The statements of a whole file: the file as it is declared, before it
    /// is sealed. [`Parser::next_proto`] reads the statements and seals.
    pub fn next_statements(&mut self) -> (r: ParserResult<FileDescriptor>)
        ensures
            is_parsed(r, final(self).tokenizer@, statements(old(self).tokenizer@)),
            follows(old(self).tokenizer@, final(self).tokenizer@),
    {
        proof {
            reveal(statements);
        }
        self.tokenizer.well_formed();
        let mut imports: Vec<Import> = Vec::new();
        let mut package: Option<Ident> = None;
        let mut messages: Vec<Message> = Vec::new();
        let mut enums: Vec<Enumeration> = Vec::new();
        let mut file_attributes: Vec<Attribute> = Vec::new();
        let mut services: Vec<Service> = Vec::new();
        let mut inner_attributes: Vec<Attribute> = Vec::new();
        assert(views(imports@) =~= seq![]);
        assert(views(messages@) =~= seq![]);
        assert(views(enums@) =~= seq![]);
        assert(views(file_attributes@) =~= seq![]);
        assert(views(services@) =~= seq![]);
        assert(views(inner_attributes@) =~= seq![]);
        loop
            invariant
                follows(old(self).tokenizer@, self.tokenizer@),
                file_items(old(self).tokenizer@, no_items()) == file_items(
                    self.tokenizer@,
                    FileItems {
                        imports: views(imports@),
                        package: match package {
                            Some(p) => Some(p@),
                            None => None,
                        },
                        messages: views(messages@),
                        enums: views(enums@),
                        attributes: views(file_attributes@),
                        services: views(services@),
                        pending: views(inner_attributes@),
                    },
                ),
            decreases remaining(self.tokenizer@),
        {
            proof {
                reveal(statements);
            }
            if te(self.tokenizer.syntax_eof())? {
                if inner_attributes.len() > 0 {
                    return Err(ParserError::DanglingAttributes);
                }
                let namespace = match package {
                    Some(ns) => ns,
                    None => {
                        return Err(ParserError::MissingPackage);
                    },
                };
                let schema = Schema {
                    namespace,
                    messages,
                    enums,
                    services,
                    attributes: file_attributes,
                };
                return Ok(FileDescriptor { imports, schema });
            }
            if let Some(import) = self.next_import_opt()? {
                if inner_attributes.len() > 0 {
                    return Err(ParserError::DanglingAttributes);
                }
                push_viewed(&mut imports, import);
                continue ;
            }
            if let Some(next_package) = self.next_package_opt()? {
                if package.is_some() {
                    return Err(ParserError::OnlyOnePackage);
                }
                if inner_attributes.len() > 0 {
                    return Err(ParserError::DanglingAttributes);
                }
                package = Some(next_package);
                continue ;
            }
            if let Some(attrib) = self.next_attribute_opt()? {
                push_viewed(&mut inner_attributes, attrib);
                continue ;
            }
            if let Some(option) = self.next_option_opt()? {
                if inner_attributes.len() > 0 {
                    return Err(ParserError::DanglingAttributes);
                }
                push_viewed(&mut file_attributes, option);
                continue ;
            }
            if let Some(message) = self.next_message_opt()? {
                let mut message = message;
                let ghost before = message;
                append_viewed(&mut message.attributes, &mut inner_attributes);
                proof {
                    lemma_message_view(before);
                    lemma_message_view(message);
                    assert(views(inner_attributes@) =~= seq![]);
                }
                push_viewed(&mut messages, message);
                continue ;
            }
            if let Some(enumeration) = self.next_enum_opt()? {
                let mut enumeration = enumeration;
                append_viewed(&mut enumeration.attributes, &mut inner_attributes);
                assert(views(inner_attributes@) =~= seq![]);
                push_viewed(&mut enums, enumeration);
                continue ;
            }
            if let Some(service) = self.next_service_opt()? {
                let mut service = service;
                append_viewed(&mut service.attributes, &mut inner_attributes);
                assert(views(inner_attributes@) =~= seq![]);
                push_viewed(&mut services, service);
                continue ;
            }
            if let Some(_) = self.next_empty_statement_opt()? {
                if inner_attributes.len() > 0 {
                    return Err(ParserError::DanglingAttributes);
                }
                continue ;
            }
            return Err(ParserError::IncorrectInput);
        }
    }

    /// A whole file: its statements, and then the final pass that seals the
    /// schema. Every service gets its serialized form and its compatibility
    /// hash, and the schema records the version of the parser.
    ///
    /// The serialized forms of the schema without its services and of each
    /// service are made by the functions given. Where the statements do not
    /// parse, the error is that of the grammar and no function is asked.
    pub fn next_proto<F, G>(&mut self, schema_bytes_of: F, service_bytes_of: G) -> (r: ParserResult<
        FileDescriptor,
    >) where
        F: Fn(&Schema) -> Result<Vec<u8>, String>,
        G: Fn(&Service) -> Result<Vec<u8>, String>,

        requires
            forall|s: &Schema| schema_bytes_of.requires((s,)),
            forall|s: &Service| service_bytes_of.requires((s,)),
        ensures
            final(self).tokenizer@ == statements(old(self).tokenizer@).1,
            follows(old(self).tokenizer@, final(self).tokenizer@),
            match statements(old(self).tokenizer@).0 {
                Err(e) => r matches Err(x) && x@ == e,
                Ok(file) => is_sealing(schema_bytes_of, service_bytes_of, file, sealing_view(r)),
            },
    {
        let file = self.next_statements()?;
        seal_with(file, schema_bytes_of, service_bytes_of)
    }
}

/// The view of the outcome of parsing a text.
pub open spec fn located_view(r: Result<FileDescriptor, ParserErrorWithLocation>) -> Result<
    FileDescriptorView,
    ParserErrorView,
> {
    match r {
        Ok(x) => Ok(x@),
        Err(e) => Err(e.error@),
    }
}

/// Whether `r` is an outcome of parsing the text `text` and sealing the
/// schema that it declares with the functions given.
///
/// A text whose statements do not parse gives the error of the grammar, at
/// the position that the tokenizer reports for it. Else the outcome is one
/// of sealing the file that the text declares, see [`is_sealing`]; an error
/// of sealing stands at the position of the end of the text.
pub open spec fn is_parse<
    F: Fn(&Schema) -> Result<Vec<u8>, String>,
    G: Fn(&Service) -> Result<Vec<u8>, String>,
>(
    text: Seq<char>,
    schema_bytes_of: F,
    service_bytes_of: G,
    r: Result<FileDescriptor, ParserErrorWithLocation>,
) -> bool {
    match parse_unsealed(text) {
        Err((e, loc)) => r matches Err(x) && x.error@ == e && x.line == loc.line && x.col
            == loc.col,
        Ok(file) => is_sealing(schema_bytes_of, service_bytes_of, file, located_view(r)) && (
        r matches Err(x) ==> x.line == parse_end(text).line && x.col == parse_end(text).col),
    }
}

/// Parses the text of one schema file, and seals the schema that it
/// declares. Imports are recorded, not followed, and names are not resolved.
/// An error carries the position that the tokenizer reports for it.
///
/// The serialized forms of the schema without its services and of each
/// service are made by the functions given.
pub fn parse_string<F, G>(text: &str, schema_bytes_of: F, service_bytes_of: G) -> (r: Result<
    FileDescriptor,
    ParserErrorWithLocation,
>) where
    F: Fn(&Schema) -> Result<Vec<u8>, String>,
    G: Fn(&Service) -> Result<Vec<u8>, String>,

    requires
        forall|s: &Schema| schema_bytes_of.requires((s,)),
        forall|s: &Service| service_bytes_of.requires((s,)),
    ensures
        is_parse(text@, schema_bytes_of, service_bytes_of, r),
{
    let mut parser = Parser::new(text);
    match parser.next_proto(schema_bytes_of, service_bytes_of) {
        Ok(file) => Ok(file),
        Err(error) => {
            let loc = parser.tokenizer.loc();
            Err(ParserErrorWithLocation { error, line: loc.line, col: loc.col })
        },
    }
}

impl FileDescriptor {
    /// Parses the text of one schema file and seals its schema, as
    /// [`parse_string`] does.
    pub fn parse<F, G>(file: &str, schema_bytes_of: F, service_bytes_of: G) -> (r: Result<
        FileDescriptor,
        ParserErrorWithLocation,
    >) where
        F: Fn(&Schema) -> Result<Vec<u8>, String>,
        G: Fn(&Service) -> Result<Vec<u8>, String>,

        requires
            forall|s: &Schema| schema_bytes_of.requires((s,)),
            forall|s: &Service| service_bytes_of.requires((s,)),
        ensures
            is_parse(file@, schema_bytes_of, service_bytes_of, r),
    {
        parse_string(file, schema_bytes_of, service_bytes_of)
    }
}

} // verus!
