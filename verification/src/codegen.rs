//! Names for generated code.

use vstd::prelude::*;
use crate::model::{FieldType, FieldTypeView};
use crate::text::{chars_of, str_eq, string_of};

verus! {

/// The snake case form of a text, as `inflector` computes it.
pub uninterp spec fn snake_case(text: Seq<char>) -> Seq<char>;

/// `inflector::cases::snakecase::to_snake_case` turns a text into snake case:
/// lower case words joined by `_`.
#[verifier::external_body]
fn to_snake_case(text: &str) -> (r: String)
    ensures
        r@ == snake_case(text@),
{
    inflector::cases::snakecase::to_snake_case(text)
}

/// The index behind the last `c` of `text`; 0 where it has none.
pub open spec fn after_last(text: Seq<char>, c: char) -> int
    decreases text.len(),
{
    if text.len() == 0 {
        0
    } else if text.last() == c {
        text.len() as int
    } else {
        after_last(text.drop_last(), c)
    }
}

/// The index of the first `c` of `text` at or after `from`; the length of
/// `text` where there is none.
pub open spec fn first_at(text: Seq<char>, from: int, c: char) -> int
    decreases text.len() - from,
{
    if from < 0 || from >= text.len() {
        text.len() as int
    } else if text[from] == c {
        from
    } else {
        first_at(text, from + 1, c)
    }
}

/// The name of a file without its directories and without what follows
/// its first `.`.
pub open spec fn stem_of(file: Seq<char>) -> Seq<char> {
    let start = after_last(file, '/');
    file.subrange(start, first_at(file, start, '.'))
}

/// The name of the file `file` without its directories and without what
/// follows its first `.`, as in `bar` for `../foo/bar.midl`.
pub fn file_stem(file: &str) -> (r: String)
    ensures
        r@ == stem_of(file@),
{
    let chars = chars_of(file);
    let mut start: usize = chars.len();
    assert(chars@.subrange(0, start as int) =~= chars@);
    while start > 0 && chars[start - 1] != '/'
        invariant
            0 <= start <= chars@.len(),
            after_last(chars@, '/') == after_last(chars@.subrange(0, start as int), '/'),
        decreases start,
    {
        assert(chars@.subrange(0, start as int).drop_last() =~= chars@.subrange(0, start - 1));
        start = start - 1;
    }
    proof {
        if start > 0 {
            assert(chars@.subrange(0, start as int).last() == '/');
        } else {
            assert(chars@.subrange(0, 0).len() == 0);
        }
    }
    let mut end: usize = start;
    while end < chars.len() && chars[end] != '.'
        invariant
            start <= end <= chars@.len(),
            first_at(chars@, start as int, '.') == first_at(chars@, end as int, '.'),
        decreases chars@.len() - end,
    {
        end = end + 1;
    }
    string_of(&chars, start, end)
}

/// The name of the module that is generated for the file `file`: the name of
/// the file without its directories and its suffix, in snake case.
pub fn module_name_from_file(file: &str) -> (r: String)
    ensures
        r@ == snake_case(stem_of(file@)),
{
    to_snake_case(file_stem(file).as_str())
}

/// The name of the Rust type that stands for a type of the schema language,
/// or why there is none.
///
/// A message or an enumeration goes by its name, without its namespace. The
/// signed integer types share the names of the unsigned ones. There is no
/// name for `Datetime`.
pub open spec fn rust_type_of(t: FieldTypeView) -> Result<Seq<char>, Seq<char>>
    decreases t,
{
    match t {
        FieldTypeView::Uint8 => Ok("u8"@),
        FieldTypeView::Uint32 => Ok("u32"@),
        FieldTypeView::Uint64 => Ok("u64"@),
        FieldTypeView::Int8 => Ok("u8"@),
        FieldTypeView::Int32 => Ok("u32"@),
        FieldTypeView::Int64 => Ok("u64"@),
        FieldTypeView::Bool => Ok("bool"@),
        FieldTypeView::Float32 => Ok("f32"@),
        FieldTypeView::Float64 => Ok("f64"@),
        FieldTypeView::String => Ok("String"@),
        FieldTypeView::Bytes => Ok("Vec<u8>"@),
        FieldTypeView::Datetime => Err("unexpected string type String(\"Datetime\")"@),
        FieldTypeView::ObjectOrEnum(id) => Ok(id.name),
        FieldTypeView::Array(item) => match rust_type_of(*item) {
            Ok(name) => Ok("Vec<"@ + name + ">"@),
            Err(e) => Err("invalid array item type "@ + e),
        },
        FieldTypeView::Mapping(key, value) => match rust_type_of(*key) {
            Err(e) => Err("invalid map key type "@ + e),
            Ok(k) => match rust_type_of(*value) {
                Err(e) => Err("invalid map value type "@ + e),
                Ok(v) => Ok("std::collections::HashMap<"@ + k + ","@ + v + ">"@),
            },
        },
    }
}

/// `a` followed by `b`.
fn joined(a: &str, b: &str) -> (r: String)
    ensures
        r@ == a@ + b@,
{
    let mut out = a.to_string();
    out.append(b);
    out
}

/// The name of the Rust type that stands for the type `t`, or why there is
/// none.
pub fn field_type_to_rust_type(t: &FieldType) -> (r: Result<String, String>)
    ensures
        match rust_type_of(t@) {
            Ok(name) => r matches Ok(x) && x@ == name,
            Err(e) => r matches Err(x) && x@ == e,
        },
    decreases t,
{
    match t {
        FieldType::Uint8 => Ok("u8".to_string()),
        FieldType::Uint32 => Ok("u32".to_string()),
        FieldType::Uint64 => Ok("u64".to_string()),
        FieldType::Int8 => Ok("u8".to_string()),
        FieldType::Int32 => Ok("u32".to_string()),
        FieldType::Int64 => Ok("u64".to_string()),
        FieldType::Bool => Ok("bool".to_string()),
        FieldType::Float32 => Ok("f32".to_string()),
        FieldType::Float64 => Ok("f64".to_string()),
        FieldType::String => Ok("String".to_string()),
        FieldType::Bytes => Ok("Vec<u8>".to_string()),
        FieldType::Datetime => Err("unexpected string type String(\"Datetime\")".to_string()),
        FieldType::ObjectOrEnum(id) => Ok(id.name.clone()),
        FieldType::Array(item) => match field_type_to_rust_type(&**item) {
            Ok(name) => {
                let mut out = joined("Vec<", name.as_str());
                out.append(">");
                Ok(out)
            },
            Err(e) => Err(joined("invalid array item type ", e.as_str())),
        },
        FieldType::Mapping(kv) => match field_type_to_rust_type(&kv.0) {
            Err(e) => Err(joined("invalid map key type ", e.as_str())),
            Ok(k) => match field_type_to_rust_type(&kv.1) {
                Err(e) => Err(joined("invalid map value type ", e.as_str())),
                Ok(v) => {
                    let mut out = joined("std::collections::HashMap<", k.as_str());
                    out.append(",");
                    out.append(v.as_str());
                    out.append(">");
                    Ok(out)
                },
            },
        },
    }
}

/// The languages that code can be generated for.
#[derive(Debug, Clone, Copy, PartialEq, Eq, Structural)]
pub enum OutputLanguage {
    Rust,
}

impl Default for OutputLanguage {
    fn default() -> (r: Self)
        ensures
            r == OutputLanguage::Rust,
    {
        OutputLanguage::Rust
    }
}

/// The language that a name stands for, or why it stands for none: `rust`
/// is the one name that does.
pub open spec fn language_of(name: Seq<char>) -> Result<OutputLanguage, Seq<char>> {
    if name == "rust"@ {
        Ok(OutputLanguage::Rust)
    } else {
        Err("Unsupported language "@ + name)
    }
}

impl OutputLanguage {
    /// The language that the name `s` stands for; else what to tell the
    /// one who gave the name.
    pub fn from_name(s: &str) -> (r: Result<OutputLanguage, String>)
        ensures
            match language_of(s@) {
                Ok(l) => r == Ok::<OutputLanguage, String>(l),
                Err(e) => r matches Err(x) && x@ == e,
            },
    {
        if str_eq(s, "rust") {
            Ok(OutputLanguage::Rust)
        } else {
            Err(joined("Unsupported language ", s))
        }
    }
}

} // verus!
