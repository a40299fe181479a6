//! The schema model: what a parsed schema file holds.

use vstd::prelude::*;
use crate::format::{decimal, format_i64, format_u64, signed_decimal, unquote, unquoted};
use crate::text::{chars_of, str_eq, string_of};

verus! {

/// Separator in hierarchical names, as in `package.service`.
pub const IDENT_PATH_DELIMITER: char = '.';

/// The key of the attribute that records where a declaration stands.
pub const ATTRIBUTE_ID_SOURCE: &'static str = "_source";

/// The key of an attribute that holds a line of documentation.
pub const ATTRIBUTE_ID_DOC: &'static str = "doc";

/// The key of the attribute that an `option` statement becomes.
pub const ATTRIBUTE_ID_OPTION: &'static str = "option";

/// The name under which an attribute keeps a value without a name.
pub const ATTRIBUTE_UNNAMED: &'static str = "_";

/// The views of the items of a sequence.
pub open spec fn views<T: View>(s: Seq<T>) -> Seq<T::V> {
    Seq::new(s.len(), |i: int| s[i]@)
}

/// Whether every clone of a `T` has the view of what it was cloned from.
pub open spec fn clone_keeps_view<T: View + Clone>() -> bool {
    forall|x: &T, y: T| call_ensures(T::clone, (x,), y) ==> y@ == (*x)@
}

/// A vector of clones of the items of `v`.
pub fn clone_vec<T: View + Clone>(v: &Vec<T>) -> (r: Vec<T>)
    requires
        clone_keeps_view::<T>(),
    ensures
        views(r@) == views(v@),
{
    let mut out: Vec<T> = Vec::new();
    let mut i: usize = 0;
    while i < v.len()
        invariant
            0 <= i <= v@.len(),
            clone_keeps_view::<T>(),
            out@.len() == i,
            forall|k: int| 0 <= k < i ==> (#[trigger] out@[k])@ == v@[k]@,
        decreases v@.len() - i,
    {
        let item = v[i].clone();
        out.push(item);
        i = i + 1;
    }
    assert(views(out@) =~= views(v@));
    out
}

/// An identifier: a leaf name, and the namespace that it lives in, if any.
#[derive(Debug, Default, PartialEq, Eq)]
pub struct Ident {
    /// The namespace, its components separated by `.`
    pub namespace: Option<String>,
    /// The leaf name
    pub name: String,
}

/// What an [`Ident`] is, over mathematical strings.
pub struct IdentView {
    pub namespace: Option<Seq<char>>,
    pub name: Seq<char>,
}

impl View for Ident {
    type V = IdentView;

    open spec fn view(&self) -> IdentView {
        IdentView {
            namespace: match self.namespace {
                Some(ns) => Some(ns@),
                None => None,
            },
            name: self.name@,
        }
    }
}

/// The index of the last `.` of `text`, if it has one.
pub open spec fn last_delimiter(text: Seq<char>) -> Option<int>
    decreases text.len(),
{
    if text.len() == 0 {
        None
    } else if text.last() == IDENT_PATH_DELIMITER {
        Some(text.len() - 1)
    } else {
        last_delimiter(text.drop_last())
    }
}

/// The identifier that `text` names: what stands before its last `.` is the
/// namespace, what stands behind it the name; without a `.` the whole text is
/// the name.
pub open spec fn ident_of(text: Seq<char>) -> IdentView {
    match last_delimiter(text) {
        Some(i) => IdentView {
            namespace: Some(text.subrange(0, i)),
            name: text.subrange(i + 1, text.len() as int),
        },
        None => IdentView { namespace: None, name: text },
    }
}

/// The full name of an identifier: `namespace.name`, or the bare name.
pub open spec fn ident_display(id: IdentView) -> Seq<char> {
    match id.namespace {
        Some(ns) => ns + seq![IDENT_PATH_DELIMITER] + id.name,
        None => id.name,
    }
}

/// The last `.` of a text, if it has one, is a `.`, and behind it there is none.
pub proof fn lemma_last_delimiter(text: Seq<char>)
    ensures
        match last_delimiter(text) {
            Some(i) => 0 <= i < text.len() && text[i] == IDENT_PATH_DELIMITER && forall|j: int|
                i < j < text.len() ==> text[j] != IDENT_PATH_DELIMITER,
            None => forall|j: int| 0 <= j < text.len() ==> text[j] != IDENT_PATH_DELIMITER,
        },
    decreases text.len(),
{
    if text.len() > 0 && text.last() != IDENT_PATH_DELIMITER {
        lemma_last_delimiter(text.drop_last());
        assert forall|j: int| 0 <= j < text.len() - 1 implies text[j] == text.drop_last()[j] by {}
    }
}

/// The full name of the identifier that a text names is the text.
pub proof fn law_ident_displays_as_written(text: Seq<char>)
    ensures
        ident_display(ident_of(text)) == text,
{
    lemma_last_delimiter(text);
    match last_delimiter(text) {
        Some(i) => {
            assert(text.subrange(0, i) + seq![IDENT_PATH_DELIMITER] + text.subrange(
                i + 1,
                text.len() as int,
            ) =~= text);
        },
        None => {},
    }
}

/// An identifier whose name holds no `.` is the one that its full name names.
pub proof fn law_ident_of_display(id: IdentView)
    requires
        forall|j: int| 0 <= j < id.name.len() ==> id.name[j] != IDENT_PATH_DELIMITER,
    ensures
        ident_of(ident_display(id)) == id,
{
    let text = ident_display(id);
    lemma_last_delimiter(text);
    match id.namespace {
        Some(ns) => {
            let at = ns.len() as int;
            assert(text[at] == IDENT_PATH_DELIMITER);
            assert forall|j: int| at < j < text.len() implies text[j] != IDENT_PATH_DELIMITER by {
                assert(text[j] == id.name[j - at - 1]);
            }
            assert(last_delimiter(text) == Some(at));
            assert(text.subrange(0, at) =~= ns);
            assert(text.subrange(at + 1, text.len() as int) =~= id.name);
        },
        None => {
            assert(last_delimiter(text) is None);
        },
    }
}

impl Ident {
    /// The identifier that `s` names, split at its last `.`.
    pub fn new(s: &str) -> (r: Ident)
        ensures
            r@ == ident_of(s@),
    {
        let chars = chars_of(s);
        let mut i: usize = chars.len();
        assert(chars@.subrange(0, i as int) =~= chars@);
        while i > 0 && chars[i - 1] != IDENT_PATH_DELIMITER
            invariant
                0 <= i <= chars@.len(),
                last_delimiter(chars@) == last_delimiter(chars@.subrange(0, i as int)),
            decreases i,
        {
            proof {
                assert(chars@.subrange(0, i as int).drop_last() =~= chars@.subrange(0, i - 1));
            }
            i = i - 1;
        }
        if i > 0 {
            proof {
                assert(chars@.subrange(0, i as int).last() == IDENT_PATH_DELIMITER);
            }
            Ident {
                namespace: Some(string_of(&chars, 0, i - 1)),
                name: string_of(&chars, i, chars.len()),
            }
        } else {
            proof {
                assert(chars@.subrange(0, 0).len() == 0);
                assert(chars@.subrange(0, chars@.len() as int) =~= chars@);
            }
            Ident { namespace: None, name: string_of(&chars, 0, chars.len()) }
        }
    }

    /// The identifier with the given namespace and name.
    pub fn from_namespace(namespace: Option<String>, name: String) -> (r: Ident)
        ensures
            r.namespace == namespace,
            r.name == name,
    {
        Ident { namespace, name }
    }

    /// The full name: `namespace.name`, or the bare name.
    pub fn display(&self) -> (r: String)
        ensures
            r@ == ident_display(self@),
    {
        match &self.namespace {
            Some(ns) => {
                let mut out = ns.clone();
                out.push(IDENT_PATH_DELIMITER);
                out.append(self.name.as_str());
                assert(out@ =~= ns@ + seq![IDENT_PATH_DELIMITER] + self.name@);
                out
            },
            None => self.name.clone(),
        }
    }
}

impl Clone for Ident {
    fn clone(&self) -> (r: Self)
        ensures
            r@ == self@,
    {
        Ident {
            namespace: match &self.namespace {
                Some(ns) => Some(ns.clone()),
                None => None,
            },
            name: self.name.clone(),
        }
    }
}

/// The type of a field, of a method's argument or of its result.
#[derive(Debug, PartialEq)]
pub enum FieldType {
    /// 8-bit signed integer
    Int8,
    /// 32-bit signed integer
    Int32,
    /// 64-bit signed integer
    Int64,
    /// 8-bit unsigned integer
    Uint8,
    /// 32-bit unsigned integer
    Uint32,
    /// 64-bit unsigned integer
    Uint64,
    /// Boolean
    Bool,
    /// UTF-8 text
    String,
    /// A sequence of bytes
    Bytes,
    /// 32-bit floating point
    Float32,
    /// 64-bit floating point
    Float64,
    /// A date and time
    Datetime,
    /// A map from a key type, which is an integer type or `String`, to a value type
    Mapping(Box<(FieldType, FieldType)>),
    /// A sequence of items of one type
    Array(Box<FieldType>),
    /// A message or an enumeration, by name
    ObjectOrEnum(Ident),
}

/// What a [`FieldType`] is, over mathematical strings.
pub enum FieldTypeView {
    Int8,
    Int32,
    Int64,
    Uint8,
    Uint32,
    Uint64,
    Bool,
    String,
    Bytes,
    Float32,
    Float64,
    Datetime,
    Mapping(Box<FieldTypeView>, Box<FieldTypeView>),
    Array(Box<FieldTypeView>),
    ObjectOrEnum(IdentView),
}

impl View for FieldType {
    type V = FieldTypeView;

    open spec fn view(&self) -> FieldTypeView
        decreases self,
    {
        match self {
            FieldType::Int8 => FieldTypeView::Int8,
            FieldType::Int32 => FieldTypeView::Int32,
            FieldType::Int64 => FieldTypeView::Int64,
            FieldType::Uint8 => FieldTypeView::Uint8,
            FieldType::Uint32 => FieldTypeView::Uint32,
            FieldType::Uint64 => FieldTypeView::Uint64,
            FieldType::Bool => FieldTypeView::Bool,
            FieldType::String => FieldTypeView::String,
            FieldType::Bytes => FieldTypeView::Bytes,
            FieldType::Float32 => FieldTypeView::Float32,
            FieldType::Float64 => FieldTypeView::Float64,
            FieldType::Datetime => FieldTypeView::Datetime,
            FieldType::Mapping(kv) => FieldTypeView::Mapping(
                Box::new((**kv).0.view()),
                Box::new((**kv).1.view()),
            ),
            FieldType::Array(item) => FieldTypeView::Array(Box::new((**item).view())),
            FieldType::ObjectOrEnum(id) => FieldTypeView::ObjectOrEnum(id@),
        }
    }
}

impl Clone for FieldType {
    fn clone(&self) -> (r: Self)
        ensures
            r@ == self@,
        decreases self,
    {
        match self {
            FieldType::Int8 => FieldType::Int8,
            FieldType::Int32 => FieldType::Int32,
            FieldType::Int64 => FieldType::Int64,
            FieldType::Uint8 => FieldType::Uint8,
            FieldType::Uint32 => FieldType::Uint32,
            FieldType::Uint64 => FieldType::Uint64,
            FieldType::Bool => FieldType::Bool,
            FieldType::String => FieldType::String,
            FieldType::Bytes => FieldType::Bytes,
            FieldType::Float32 => FieldType::Float32,
            FieldType::Float64 => FieldType::Float64,
            FieldType::Datetime => FieldType::Datetime,
            FieldType::Mapping(kv) => {
                let k = kv.0.clone();
                let v = kv.1.clone();
                FieldType::Mapping(Box::new((k, v)))
            },
            FieldType::Array(item) => {
                let inner = (**item).clone();
                FieldType::Array(Box::new(inner))
            },
            FieldType::ObjectOrEnum(id) => FieldType::ObjectOrEnum(id.clone()),
        }
    }
}

/// Whether a type is one of the signed or unsigned integer types.
pub open spec fn is_integer_type(t: FieldTypeView) -> bool {
    t is Uint8 || t is Int8 || t is Uint32 || t is Int32 || t is Uint64 || t is Int64
}

impl FieldType {
    /// Whether this is one of the signed or unsigned integer types.
    pub fn is_integer(&self) -> (r: bool)
        ensures
            r == is_integer_type(self@),
    {
        match self {
            FieldType::Uint8 => true,
            FieldType::Int8 => true,
            FieldType::Uint32 => true,
            FieldType::Int32 => true,
            FieldType::Uint64 => true,
            FieldType::Int64 => true,
            _ => false,
        }
    }
}

/// A constant, as written in a schema.
#[derive(Debug, PartialEq)]
pub enum Constant {
    /// Unsigned 64-bit integer
    U64(u64),
    /// Signed 64-bit integer
    I64(i64),
    /// A floating-point number, kept as its literal was written, with a `-`
    /// in front where the literal was negated
    F64(String),
    /// Boolean
    Bool(bool),
    /// A reference to a named constant
    Ident(Ident),
    /// A string literal between double quotes, its escapes untouched
    String(String),
    /// A sequence of bytes
    Bytes(Vec<u8>),
}

/// What a [`Constant`] is, over mathematical strings.
pub enum ConstantView {
    U64(u64),
    I64(i64),
    F64(Seq<char>),
    Bool(bool),
    Ident(IdentView),
    String(Seq<char>),
    Bytes(Seq<u8>),
}

impl View for Constant {
    type V = ConstantView;

    open spec fn view(&self) -> ConstantView {
        match self {
            Constant::U64(v) => ConstantView::U64(*v),
            Constant::I64(v) => ConstantView::I64(*v),
            Constant::F64(v) => ConstantView::F64(v@),
            Constant::Bool(v) => ConstantView::Bool(*v),
            Constant::Ident(v) => ConstantView::Ident(v@),
            Constant::String(v) => ConstantView::String(v@),
            Constant::Bytes(v) => ConstantView::Bytes(v@),
        }
    }
}

impl Clone for Constant {
    fn clone(&self) -> (r: Self)
        ensures
            r@ == self@,
    {
        match self {
            Constant::U64(v) => Constant::U64(*v),
            Constant::I64(v) => Constant::I64(*v),
            Constant::F64(v) => Constant::F64(v.clone()),
            Constant::Bool(v) => Constant::Bool(*v),
            Constant::Ident(v) => Constant::Ident(v.clone()),
            Constant::String(v) => Constant::String(v.clone()),
            Constant::Bytes(v) => Constant::Bytes(v.clone()),
        }
    }
}

/// An attribute: a key, and the pairs of name and value under it.
#[derive(Debug, PartialEq)]
pub struct Attribute {
    /// The key of the attribute
    pub key: Ident,
    /// The pairs of name and value, in the order in which they were written
    pub values: Vec<(String, Constant)>,
}

/// What an [`Attribute`] is, over mathematical strings.
pub struct AttributeView {
    pub key: IdentView,
    pub values: Seq<(Seq<char>, ConstantView)>,
}

/// The views of pairs of name and value.
pub open spec fn pair_views(s: Seq<(String, Constant)>) -> Seq<(Seq<char>, ConstantView)> {
    Seq::new(s.len(), |i: int| (s[i].0@, s[i].1@))
}

impl View for Attribute {
    type V = AttributeView;

    open spec fn view(&self) -> AttributeView {
        AttributeView { key: self.key@, values: pair_views(self.values@) }
    }
}

impl Clone for Attribute {
    fn clone(&self) -> (r: Self)
        ensures
            r@ == self@,
    {
        let mut values: Vec<(String, Constant)> = Vec::new();
        let mut i: usize = 0;
        while i < self.values.len()
            invariant
                0 <= i <= self.values@.len(),
                values@.len() == i,
                forall|k: int|
                    0 <= k < i ==> (#[trigger] values@[k]).0@ == self.values@[k].0@ && values@[k].1@
                        == self.values@[k].1@,
            decreases self.values@.len() - i,
        {
            let name = self.values[i].0.clone();
            let value = self.values[i].1.clone();
            values.push((name, value));
            i = i + 1;
        }
        assert(pair_views(values@) =~= pair_views(self.values@));
        Attribute { key: self.key.clone(), values }
    }
}

/// A field of a message.
#[derive(Debug, PartialEq)]
pub struct Field {
    /// The name of the field
    pub name: String,
    /// Whether the field may be left out
    pub optional: bool,
    /// The type of the field
    pub typ: FieldType,
    /// The tag number
    pub number: u32,
    /// The attributes of the field
    pub attributes: Vec<Attribute>,
}

/// What a [`Field`] is, over mathematical strings.
pub struct FieldView {
    pub name: Seq<char>,
    pub optional: bool,
    pub typ: FieldTypeView,
    pub number: u32,
    pub attributes: Seq<AttributeView>,
}

impl View for Field {
    type V = FieldView;

    open spec fn view(&self) -> FieldView {
        FieldView {
            name: self.name@,
            optional: self.optional,
            typ: self.typ@,
            number: self.number,
            attributes: views(self.attributes@),
        }
    }
}

impl Clone for Field {
    fn clone(&self) -> (r: Self)
        ensures
            r@ == self@,
    {
        Field {
            name: self.name.clone(),
            optional: self.optional,
            typ: self.typ.clone(),
            number: self.number,
            attributes: clone_vec(&self.attributes),
        }
    }
}

/// A value of an enumeration.
#[derive(Debug, PartialEq)]
pub struct EnumValue {
    /// The name of the value
    pub name: String,
    /// The number of the value
    pub number: i32,
    /// The attributes of the value
    pub attributes: Vec<Attribute>,
}

/// What an [`EnumValue`] is, over mathematical strings.
pub struct EnumValueView {
    pub name: Seq<char>,
    pub number: i32,
    pub attributes: Seq<AttributeView>,
}

impl View for EnumValue {
    type V = EnumValueView;

    open spec fn view(&self) -> EnumValueView {
        EnumValueView {
            name: self.name@,
            number: self.number,
            attributes: views(self.attributes@),
        }
    }
}

impl Clone for EnumValue {
    fn clone(&self) -> (r: Self)
        ensures
            r@ == self@,
    {
        EnumValue {
            name: self.name.clone(),
            number: self.number,
            attributes: clone_vec(&self.attributes),
        }
    }
}

/// An enumeration.
#[derive(Debug, PartialEq)]
pub struct Enumeration {
    /// The name of the enumeration
    pub name: String,
    /// Its values
    pub values: Vec<EnumValue>,
    /// Its attributes
    pub attributes: Vec<Attribute>,
}

/// What an [`Enumeration`] is, over mathematical strings.
pub struct EnumerationView {
    pub name: Seq<char>,
    pub values: Seq<EnumValueView>,
    pub attributes: Seq<AttributeView>,
}

impl View for Enumeration {
    type V = EnumerationView;

    open spec fn view(&self) -> EnumerationView {
        EnumerationView {
            name: self.name@,
            values: views(self.values@),
            attributes: views(self.attributes@),
        }
    }
}

impl Clone for Enumeration {
    fn clone(&self) -> (r: Self)
        ensures
            r@ == self@,
    {
        Enumeration {
            name: self.name.clone(),
            values: clone_vec(&self.values),
            attributes: clone_vec(&self.attributes),
        }
    }
}

/// A message.
#[derive(Debug, Default, PartialEq)]
pub struct Message {
    /// The name of the message
    pub name: Ident,
    /// Its fields
    pub fields: Vec<Field>,
    /// The messages declared inside it
    pub messages: Vec<Message>,
    /// The enumerations declared inside it
    pub enums: Vec<Enumeration>,
    /// Its attributes
    pub attributes: Vec<Attribute>,
}

/// What a [`Message`] is, over mathematical strings.
pub struct MessageView {
    pub name: IdentView,
    pub fields: Seq<FieldView>,
    pub messages: Seq<MessageView>,
    pub enums: Seq<EnumerationView>,
    pub attributes: Seq<AttributeView>,
}

impl View for Message {
    type V = MessageView;

    open spec fn view(&self) -> MessageView
        decreases self,
    {
        MessageView {
            name: self.name@,
            fields: views(self.fields@),
            messages: Seq::new(
                self.messages.len() as nat,
                |i: int|
                    if 0 <= i < self.messages.len() {
                        self.messages[i].view()
                    } else {
                        arbitrary()
                    },
            ),
            enums: views(self.enums@),
            attributes: views(self.attributes@),
        }
    }
}

/// The view of a message, field by field.
pub proof fn lemma_message_view(m: Message)
    ensures
        m@.name == m.name@,
        m@.fields == views(m.fields@),
        m@.messages == views(m.messages@),
        m@.enums == views(m.enums@),
        m@.attributes == views(m.attributes@),
{
    reveal_with_fuel(<Message as View>::view, 2);
    assert(m@.messages =~= views(m.messages@));
}

impl Clone for Message {
    fn clone(&self) -> (r: Self)
        ensures
            r@ == self@,
        decreases self,
    {
        let mut messages: Vec<Message> = Vec::new();
        let mut i: usize = 0;
        while i < self.messages.len()
            invariant
                0 <= i <= self.messages.len(),
                messages@.len() == i,
                forall|k: int| 0 <= k < i ==> (#[trigger] messages@[k])@ == self.messages@[k]@,
            decreases self.messages.len() - i,
        {
            let nested = self.messages[i].clone();
            messages.push(nested);
            i = i + 1;
        }
        let r = Message {
            name: self.name.clone(),
            fields: clone_vec(&self.fields),
            messages,
            enums: clone_vec(&self.enums),
            attributes: clone_vec(&self.attributes),
        };
        proof {
            lemma_message_view(r);
            lemma_message_view(*self);
            assert(views(r.messages@) =~= views(self.messages@));
        }
        r
    }
}

/// A method of a service.
#[derive(Debug, PartialEq)]
pub struct Method {
    /// The name of the method
    pub name: String,
    /// The type of the argument; `None` where the method takes none
    pub input_type: Option<FieldType>,
    /// The type of the result; `None` where the method returns nothing
    pub output_type: Option<FieldType>,
    /// The attributes of the method
    pub attributes: Vec<Attribute>,
}

/// What a [`Method`] is, over mathematical strings.
pub struct MethodView {
    pub name: Seq<char>,
    pub input_type: Option<FieldTypeView>,
    pub output_type: Option<FieldTypeView>,
    pub attributes: Seq<AttributeView>,
}

/// The view of an optional type.
pub open spec fn opt_type_view(t: Option<FieldType>) -> Option<FieldTypeView> {
    match t {
        Some(t) => Some(t@),
        None => None,
    }
}

impl View for Method {
    type V = MethodView;

    open spec fn view(&self) -> MethodView {
        MethodView {
            name: self.name@,
            input_type: opt_type_view(self.input_type),
            output_type: opt_type_view(self.output_type),
            attributes: views(self.attributes@),
        }
    }
}

impl Clone for Method {
    fn clone(&self) -> (r: Self)
        ensures
            r@ == self@,
    {
        Method {
            name: self.name.clone(),
            input_type: match &self.input_type {
                Some(t) => Some(t.clone()),
                None => None,
            },
            output_type: match &self.output_type {
                Some(t) => Some(t.clone()),
                None => None,
            },
            attributes: clone_vec(&self.attributes),
        }
    }
}

/// The view of an optional string.
pub open spec fn opt_string_view(s: Option<String>) -> Option<Seq<char>> {
    match s {
        Some(s) => Some(s@),
        None => None,
    }
}

/// A service.
#[derive(Debug, Default, PartialEq)]
pub struct Service {
    /// The name of the service
    pub name: Ident,
    /// Its methods
    pub methods: Vec<Method>,
    /// Its attributes
    pub attributes: Vec<Attribute>,
    /// The serialized form of the service, in unpadded standard base64
    pub schema: Option<String>,
    /// The compatibility hash of the service, in unpadded standard base64
    pub schema_id: Option<String>,
}

/// What a [`Service`] is, over mathematical strings.
pub struct ServiceView {
    pub name: IdentView,
    pub methods: Seq<MethodView>,
    pub attributes: Seq<AttributeView>,
    pub schema: Option<Seq<char>>,
    pub schema_id: Option<Seq<char>>,
}

impl View for Service {
    type V = ServiceView;

    open spec fn view(&self) -> ServiceView {
        ServiceView {
            name: self.name@,
            methods: views(self.methods@),
            attributes: views(self.attributes@),
            schema: opt_string_view(self.schema),
            schema_id: opt_string_view(self.schema_id),
        }
    }
}

impl Clone for Service {
    fn clone(&self) -> (r: Self)
        ensures
            r@ == self@,
    {
        Service {
            name: self.name.clone(),
            methods: clone_vec(&self.methods),
            attributes: clone_vec(&self.attributes),
            schema: match &self.schema {
                Some(s) => Some(s.clone()),
                None => None,
            },
            schema_id: match &self.schema_id {
                Some(s) => Some(s.clone()),
                None => None,
            },
        }
    }
}

/// A schema: what one schema file declares.
#[derive(Debug, Default, PartialEq)]
pub struct Schema {
    /// The namespace, from the `package` statement
    pub namespace: Ident,
    /// The messages declared at the top level
    pub messages: Vec<Message>,
    /// The enumerations declared at the top level
    pub enums: Vec<Enumeration>,
    /// The services
    pub services: Vec<Service>,
    /// The attributes of the schema
    pub attributes: Vec<Attribute>,
}

/// What a [`Schema`] is, over mathematical strings.
pub struct SchemaView {
    pub namespace: IdentView,
    pub messages: Seq<MessageView>,
    pub enums: Seq<EnumerationView>,
    pub services: Seq<ServiceView>,
    pub attributes: Seq<AttributeView>,
}

impl View for Schema {
    type V = SchemaView;

    open spec fn view(&self) -> SchemaView {
        SchemaView {
            namespace: self.namespace@,
            messages: views(self.messages@),
            enums: views(self.enums@),
            services: views(self.services@),
            attributes: views(self.attributes@),
        }
    }
}

/// Whether the pair at index `i` is the first one of `values` with the name `name`.
pub open spec fn is_first_named(values: Seq<(Seq<char>, ConstantView)>, name: Seq<char>, i: int)
    -> bool {
    &&& 0 <= i < values.len()
    &&& values[i].0 == name
    &&& forall|j: int| 0 <= j < i ==> (#[trigger] values[j]).0 != name
}

/// Whether the attribute at index `i` is the first one of `attributes` whose
/// key, written in full, is `key`.
pub open spec fn is_first_keyed(attributes: Seq<AttributeView>, key: Seq<char>, i: int) -> bool {
    &&& 0 <= i < attributes.len()
    &&& ident_display(attributes[i].key) == key
    &&& forall|j: int| 0 <= j < i ==> ident_display((#[trigger] attributes[j]).key) != key
}

impl Attribute {
    /// An attribute with a key only, as in `@key`.
    pub fn new_key_only(key: &str) -> (r: Attribute)
        ensures
            r@ == (AttributeView { key: ident_of(key@), values: seq![] }),
    {
        let r = Attribute { key: Ident::new(key), values: Vec::new() };
        assert(r@.values =~= seq![]);
        r
    }

    /// An attribute with one value without a name, as in `@key(value)`.
    pub fn new_single_value(key: &str, value: Constant) -> (r: Attribute)
        ensures
            r@ == (AttributeView {
                key: ident_of(key@),
                values: seq![(ATTRIBUTE_UNNAMED@, value@)],
            }),
    {
        let mut values: Vec<(String, Constant)> = Vec::new();
        values.push((ATTRIBUTE_UNNAMED.to_string(), value));
        let r = Attribute { key: Ident::new(key), values };
        assert(r@.values =~= seq![(ATTRIBUTE_UNNAMED@, value@)]);
        r
    }

    /// An attribute with one pair of name and value, as in `@key(name=value)`.
    pub fn new_single_kv(key: &str, name: String, value: Constant) -> (r: Attribute)
        ensures
            r@ == (AttributeView { key: ident_of(key@), values: seq![(name@, value@)] }),
    {
        let mut values: Vec<(String, Constant)> = Vec::new();
        values.push((name, value));
        let r = Attribute { key: Ident::new(key), values };
        assert(r@.values =~= seq![(name@, value@)]);
        r
    }

    /// The pairs of name and value, in order.
    pub fn iter(&self) -> (r: &Vec<(String, Constant)>)
        ensures
            r == &self.values,
    {
        &self.values
    }

    /// The first value with the name `name`, if there is one.
    pub fn get(&self, name: &str) -> (r: Option<&Constant>)
        ensures
            match r {
                Some(c) => exists|i: int|
                    is_first_named(self@.values, name@, i) && c@ == (#[trigger] self@.values[i]).1,
                None => forall|i: int|
                    0 <= i < self@.values.len() ==> (#[trigger] self@.values[i]).0 != name@,
            },
    {
        let mut i: usize = 0;
        while i < self.values.len()
            invariant
                0 <= i <= self.values@.len(),
                forall|j: int| 0 <= j < i ==> (#[trigger] self@.values[j]).0 != name@,
            decreases self.values@.len() - i,
        {
            if str_eq(self.values[i].0.as_str(), name) {
                assert(is_first_named(self@.values, name@, i as int));
                return Some(&self.values[i].1);
            }
            i = i + 1;
        }
        None
    }
}

/// The first attribute of `attributes` whose key, written in full, is `key`.
pub fn find_attribute<'a>(attributes: &'a Vec<Attribute>, key: &str) -> (r: Option<&'a Attribute>)
    ensures
        match r {
            Some(a) => exists|i: int|
                is_first_keyed(views(attributes@), key@, i) && a@ == #[trigger] views(
                    attributes@,
                )[i],
            None => forall|i: int|
                0 <= i < attributes@.len() ==> ident_display(
                    (#[trigger] views(attributes@)[i]).key,
                ) != key@,
        },
{
    let mut i: usize = 0;
    while i < attributes.len()
        invariant
            0 <= i <= attributes@.len(),
            forall|j: int|
                0 <= j < i ==> ident_display((#[trigger] views(attributes@)[j]).key) != key@,
        decreases attributes@.len() - i,
    {
        let full = attributes[i].key.display();
        if str_eq(full.as_str(), key) {
            assert(is_first_keyed(views(attributes@), key@, i as int));
            return Some(&attributes[i]);
        }
        i = i + 1;
    }
    None
}

/// A cursor over the attributes of a declaration.
pub struct Attributes<'a> {
    base: &'a Vec<Attribute>,
    pos: usize,
}

impl<'a> Attributes<'a> {
    /// The attributes that are left, in order.
    pub closed spec fn rest(&self) -> Seq<AttributeView> {
        if self.pos <= self.base@.len() {
            views(self.base@).subrange(self.pos as int, self.base@.len() as int)
        } else {
            seq![]
        }
    }

    /// A cursor at the first of `attributes`.
    pub fn new(attributes: &'a Vec<Attribute>) -> (r: Attributes<'a>)
        ensures
            r.rest() == views(attributes@),
    {
        assert(views(attributes@).subrange(0, attributes@.len() as int) =~= views(attributes@));
        Attributes { base: attributes, pos: 0 }
    }

    /// The next attribute, if one is left.
    pub fn next(&mut self) -> (r: Option<&'a Attribute>)
        ensures
            match r {
                Some(a) => old(self).rest().len() > 0 && a@ == old(self).rest()[0]
                    && final(self).rest() == old(self).rest().drop_first(),
                None => old(self).rest().len() == 0 && final(self).rest() == old(self).rest(),
            },
    {
        if self.pos < self.base.len() {
            let a = &self.base[self.pos];
            self.pos = self.pos + 1;
            assert(self.rest() =~= old(self).rest().drop_first());
            Some(a)
        } else {
            None
        }
    }
}

/// A declaration that has attributes.
pub trait HasAttributes {
    /// The attributes of the declaration.
    spec fn attribute_views(&self) -> Seq<AttributeView>;

    /// A cursor over the attributes of the declaration.
    fn attributes(&self) -> (r: Attributes<'_>)
        ensures
            r.rest() == self.attribute_views(),
    ;

    /// The first attribute whose key, written in full, is `key`.
    fn get_attribute(&self, key: &str) -> (r: Option<&Attribute>)
        ensures
            match r {
                Some(a) => exists|i: int|
                    is_first_keyed(self.attribute_views(), key@, i) && a@
                        == #[trigger] self.attribute_views()[i],
                None => forall|i: int|
                    0 <= i < self.attribute_views().len() ==> ident_display(
                        (#[trigger] self.attribute_views()[i]).key,
                    ) != key@,
            },
    ;
}

impl HasAttributes for Field {
    open spec fn attribute_views(&self) -> Seq<AttributeView> {
        views(self.attributes@)
    }

    fn attributes(&self) -> (r: Attributes<'_>) {
        Attributes::new(&self.attributes)
    }

    fn get_attribute(&self, key: &str) -> (r: Option<&Attribute>) {
        find_attribute(&self.attributes, key)
    }
}

impl HasAttributes for Message {
    open spec fn attribute_views(&self) -> Seq<AttributeView> {
        views(self.attributes@)
    }

    fn attributes(&self) -> (r: Attributes<'_>) {
        Attributes::new(&self.attributes)
    }

    fn get_attribute(&self, key: &str) -> (r: Option<&Attribute>) {
        find_attribute(&self.attributes, key)
    }
}

impl HasAttributes for Enumeration {
    open spec fn attribute_views(&self) -> Seq<AttributeView> {
        views(self.attributes@)
    }

    fn attributes(&self) -> (r: Attributes<'_>) {
        Attributes::new(&self.attributes)
    }

    fn get_attribute(&self, key: &str) -> (r: Option<&Attribute>) {
        find_attribute(&self.attributes, key)
    }
}

impl HasAttributes for Method {
    open spec fn attribute_views(&self) -> Seq<AttributeView> {
        views(self.attributes@)
    }

    fn attributes(&self) -> (r: Attributes<'_>) {
        Attributes::new(&self.attributes)
    }

    fn get_attribute(&self, key: &str) -> (r: Option<&Attribute>) {
        find_attribute(&self.attributes, key)
    }
}

impl HasAttributes for Service {
    open spec fn attribute_views(&self) -> Seq<AttributeView> {
        views(self.attributes@)
    }

    fn attributes(&self) -> (r: Attributes<'_>) {
        Attributes::new(&self.attributes)
    }

    fn get_attribute(&self, key: &str) -> (r: Option<&Attribute>) {
        find_attribute(&self.attributes, key)
    }
}

impl HasAttributes for Schema {
    open spec fn attribute_views(&self) -> Seq<AttributeView> {
        views(self.attributes@)
    }

    fn attributes(&self) -> (r: Attributes<'_>) {
        Attributes::new(&self.attributes)
    }

    fn get_attribute(&self, key: &str) -> (r: Option<&Attribute>) {
        find_attribute(&self.attributes, key)
    }
}

/// The default value of a field with the attributes `attributes`: the first
/// value named `value` of the first attribute with the key `default`.
pub open spec fn default_of(attributes: Seq<AttributeView>, c: Option<ConstantView>) -> bool {
    match c {
        Some(c) => exists|i: int, k: int|
            is_first_keyed(attributes, "default"@, i) && is_first_named(
                (#[trigger] attributes[i]).values,
                "value"@,
                k,
            ) && c == (#[trigger] attributes[i].values[k]).1,
        None => (forall|i: int|
            0 <= i < attributes.len() ==> ident_display((#[trigger] attributes[i]).key)
                != "default"@) || (exists|i: int|
            is_first_keyed(attributes, "default"@, i) && forall|k: int|
                0 <= k < (#[trigger] attributes[i]).values.len() ==> (
                #[trigger] attributes[i].values[k]).0 != "value"@),
    }
}

impl Field {
    /// The default value that the field declares, if it declares one: the
    /// value named `value` of its attribute `default`.
    pub fn default_value(&self) -> (r: Option<Constant>)
        ensures
            default_of(
                self@.attributes,
                match r {
                    Some(c) => Some(c@),
                    None => None,
                },
            ),
    {
        match self.get_attribute("default") {
            Some(attr) => {
                let ghost i = choose|i: int|
                    is_first_keyed(self@.attributes, "default"@, i) && attr@
                        == #[trigger] self@.attributes[i];
                match attr.get("value") {
                    Some(c) => {
                        let ghost k = choose|k: int|
                            is_first_named(attr@.values, "value"@, k) && c@
                                == (#[trigger] attr@.values[k]).1;
                        let out = c.clone();
                        assert(is_first_named(self@.attributes[i].values, "value"@, k));
                        assert(out@ == self@.attributes[i].values[k].1);
                        Some(out)
                    },
                    None => {
                        assert(is_first_keyed(self@.attributes, "default"@, i));
                        None
                    },
                }
            },
            None => None,
        }
    }
}

/// Whether the field at index `i` is the first one of `fields` with the name `name`.
pub open spec fn is_first_field(fields: Seq<FieldView>, name: Seq<char>, i: int) -> bool {
    &&& 0 <= i < fields.len()
    &&& fields[i].name == name
    &&& forall|j: int| 0 <= j < i ==> (#[trigger] fields[j]).name != name
}

impl Message {
    /// The first field with the name `name`, if there is one.
    pub fn get_field(&self, name: &str) -> (r: Option<&Field>)
        ensures
            match r {
                Some(f) => exists|i: int|
                    is_first_field(views(self.fields@), name@, i) && f@ == #[trigger] views(
                        self.fields@,
                    )[i],
                None => forall|i: int|
                    0 <= i < self.fields@.len() ==> (#[trigger] views(self.fields@)[i]).name
                        != name@,
            },
    {
        let mut i: usize = 0;
        while i < self.fields.len()
            invariant
                0 <= i <= self.fields@.len(),
                forall|j: int| 0 <= j < i ==> (#[trigger] views(self.fields@)[j]).name != name@,
            decreases self.fields@.len() - i,
        {
            if str_eq(self.fields[i].name.as_str(), name) {
                assert(is_first_field(views(self.fields@), name@, i as int));
                return Some(&self.fields[i]);
            }
            i = i + 1;
        }
        None
    }
}

/// The text that a floating-point constant prints as: `nan` whatever its
/// sign, and otherwise the text of the constant.
pub open spec fn float_text(text: Seq<char>) -> Seq<char> {
    if text == "nan"@ || text == "-nan"@ {
        "nan"@
    } else {
        text
    }
}

/// The text that a constant prints as. Integers print in decimal, booleans as
/// `true` and `false`, an identifier in full, a string as it is. A
/// floating-point constant prints as it was written, `nan` without a sign.
/// Bytes print as a placeholder.
pub open spec fn constant_text(c: ConstantView) -> Seq<char> {
    match c {
        ConstantView::U64(u) => decimal(u as nat),
        ConstantView::I64(i) => signed_decimal(i as int),
        ConstantView::F64(f) => float_text(f),
        ConstantView::Bool(b) => if b {
            "true"@
        } else {
            "false"@
        },
        ConstantView::Ident(i) => ident_display(i),
        ConstantView::String(s) => s,
        ConstantView::Bytes(_) => "<bytes>"@,
    }
}

impl Constant {
    /// The text that the constant prints as.
    pub fn format(&self) -> (r: String)
        ensures
            r@ == constant_text(self@),
    {
        match self {
            Constant::U64(u) => format_u64(*u),
            Constant::I64(i) => format_i64(*i),
            Constant::F64(f) => {
                if str_eq(f.as_str(), "nan") || str_eq(f.as_str(), "-nan") {
                    "nan".to_string()
                } else {
                    f.clone()
                }
            },
            Constant::Bool(b) => {
                if *b {
                    "true".to_string()
                } else {
                    "false".to_string()
                }
            },
            Constant::Ident(i) => i.display(),
            Constant::String(s) => s.clone(),
            Constant::Bytes(_) => "<bytes>".to_string(),
        }
    }

    /// The text of a string constant, without the double quotes around it;
    /// `None` for any other constant.
    pub fn as_string(&self) -> (r: Option<String>)
        ensures
            match self@ {
                ConstantView::String(s) => r matches Some(x) && x@ == unquoted(s),
                _ => r is None,
            },
    {
        match self {
            Constant::String(s) => Some(unquote(s.as_str())),
            _ => None,
        }
    }
}

impl Clone for Schema {
    fn clone(&self) -> (r: Self)
        ensures
            r@ == self@,
    {
        Schema {
            namespace: self.namespace.clone(),
            messages: clone_vec(&self.messages),
            enums: clone_vec(&self.enums),
            services: clone_vec(&self.services),
            attributes: clone_vec(&self.attributes),
        }
    }
}

/// Appends `x` to `v`.
pub(crate) fn push_viewed<T: View>(v: &mut Vec<T>, x: T)
    ensures
        final(v)@ == old(v)@.push(x),
        views(final(v)@) == views(old(v)@).push(x@),
{
    v.push(x);
    assert(views(v@) =~= views(old(v)@).push(x@));
}

/// Appends the pair of `name` and `value` to `v`.
pub(crate) fn push_pair(v: &mut Vec<(String, Constant)>, name: String, value: Constant)
    ensures
        pair_views(final(v)@) == pair_views(old(v)@).push((name@, value@)),
{
    v.push((name, value));
    assert(pair_views(v@) =~= pair_views(old(v)@).push((name@, value@)));
}

/// Moves the items of `from` to the end of `v`.
pub(crate) fn append_viewed<T: View>(v: &mut Vec<T>, from: &mut Vec<T>)
    ensures
        final(v)@ == old(v)@ + old(from)@,
        views(final(v)@) == views(old(v)@) + views(old(from)@),
        final(from)@ == Seq::<T>::empty(),
{
    v.append(from);
    assert(views(v@) =~= views(old(v)@) + views(old(from)@));
}

} // verus!
