use midl_parser::codegen::{
    field_type_to_rust_type, file_stem, module_name_from_file, OutputLanguage,
};
use midl_parser::descriptor::{FileDescriptor, Import, ImportVis};
use midl_parser::errors::{new, ErrorKind};
use midl_parser::format::{format_i64, format_u64};
use midl_parser::lexer::ints::Overflow;
use midl_parser::lexer::loc::Loc;
use midl_parser::lexer::token::{LexerError, StrLitDecodeError};
use midl_parser::lexer::tokenizer::TokenizerError;
use midl_parser::model::{
    Attribute, Attributes, Constant, FieldType, HasAttributes, Ident, Message, Schema, Service,
};
use midl_parser::parser::error::{ParserError, ParserErrorWithLocation};

fn schema_form(schema: &Schema) -> Result<Vec<u8>, String> {
    Ok(format!("{:?}", schema).into_bytes())
}

fn service_form(service: &Service) -> Result<Vec<u8>, String> {
    Ok(format!("{:?}", service).into_bytes())
}

fn parse_string(text: &str) -> Result<FileDescriptor, ParserErrorWithLocation> {
    midl_parser::parse_string(text, schema_form, service_form)
}

fn ident(namespace: Option<&str>, name: &str) -> Ident {
    Ident {
        namespace: namespace.map(|s| s.to_string()),
        name: name.to_string(),
    }
}

#[test]
fn an_identifier_splits_at_its_last_dot() {
    assert_eq!(Ident::new("a"), ident(None, "a"));
    assert_eq!(Ident::new("a.b"), ident(Some("a"), "b"));
    assert_eq!(Ident::new("a.b.c"), ident(Some("a.b"), "c"));
    assert_eq!(Ident::new(""), ident(None, ""));
    assert_eq!(Ident::new("a."), ident(Some("a"), ""));
    assert_eq!(Ident::new(".a"), ident(Some(""), "a"));
    assert_eq!(Ident::from("x.y"), ident(Some("x"), "y"));
    assert_eq!(Ident::from("x.y".to_string()), ident(Some("x"), "y"));
    assert_eq!(
        Ident::from_namespace(Some("n".to_string()), "a.b".to_string()),
        ident(Some("n"), "a.b")
    );
}

#[test]
fn an_identifier_displays_in_full() {
    assert_eq!(Ident::new("a.b.c").display(), "a.b.c");
    assert_eq!(ident(None, "x").display(), "x");
    assert_eq!(ident(Some("p"), "x").display(), "p.x");
    assert!(ident(Some("p"), "x") == *"p.x");
    assert!(ident(Some("p"), "x") == "p.x");
    assert!(ident(Some("p"), "x") == "p.x".to_string());
    assert!(ident(Some("p"), "x") != "x");
}

#[test]
fn the_integer_types() {
    for t in [
        FieldType::Int8,
        FieldType::Int32,
        FieldType::Int64,
        FieldType::Uint8,
        FieldType::Uint32,
        FieldType::Uint64,
    ] {
        assert!(t.is_integer(), "{:?}", t);
    }
    for t in [
        FieldType::Bool,
        FieldType::String,
        FieldType::Bytes,
        FieldType::Float32,
        FieldType::Float64,
        FieldType::Datetime,
        FieldType::Array(Box::new(FieldType::Int8)),
        FieldType::Mapping(Box::new((FieldType::Int8, FieldType::Int8))),
        FieldType::ObjectOrEnum(ident(None, "Int8")),
    ] {
        assert!(!t.is_integer(), "{:?}", t);
    }
}

#[test]
fn attribute_builders() {
    assert_eq!(
        Attribute::new_key_only("a.b"),
        Attribute {
            key: ident(Some("a"), "b"),
            values: vec![]
        }
    );
    assert_eq!(
        Attribute::new_single_value("max", Constant::from(95u32)),
        Attribute {
            key: ident(None, "max"),
            values: vec![("_".to_string(), Constant::U64(95))]
        }
    );
    assert_eq!(
        Attribute::new_single_kv("p", "scale".to_string(), Constant::from(-2i32)),
        Attribute {
            key: ident(None, "p"),
            values: vec![("scale".to_string(), Constant::I64(-2))]
        }
    );
}

#[test]
fn an_attribute_gives_its_first_value_of_a_name() {
    let a = Attribute {
        key: ident(None, "k"),
        values: vec![
            ("x".to_string(), Constant::U64(1)),
            ("y".to_string(), Constant::U64(2)),
            ("x".to_string(), Constant::U64(3)),
        ],
    };
    assert_eq!(a.get("x"), Some(&Constant::U64(1)));
    assert_eq!(a.get("y"), Some(&Constant::U64(2)));
    assert_eq!(a.get("z"), None);
    assert_eq!(a.iter().len(), 3);
}

#[test]
fn constants_convert_and_print() {
    assert_eq!(Constant::from(7u64).format(), "7");
    assert_eq!(Constant::from(0u64).format(), "0");
    assert_eq!(Constant::from(u64::MAX).format(), "18446744073709551615");
    assert_eq!(Constant::from(-7i64).format(), "-7");
    assert_eq!(Constant::from(i64::MIN).format(), "-9223372036854775808");
    assert_eq!(Constant::from(i64::MAX).format(), "9223372036854775807");
    assert_eq!(Constant::Bool(true).format(), "true");
    assert_eq!(Constant::Bool(false).format(), "false");
    assert_eq!(Constant::Ident(ident(Some("a"), "b")).format(), "a.b");
    assert_eq!(Constant::from("\"x\"").format(), "\"x\"");
    assert_eq!(Constant::from("s".to_string()).format(), "s");
    assert_eq!(Constant::from(vec![1u8, 2, 3]).format(), "<bytes>");
    assert_eq!(Constant::F64("nan".to_string()).format(), "nan");
    assert_eq!(Constant::F64("-nan".to_string()).format(), "nan");
    assert_eq!(Constant::F64("inf".to_string()).format(), "inf");
    assert_eq!(Constant::F64("-inf".to_string()).format(), "-inf");
    assert_eq!(Constant::F64("-1.5".to_string()).format(), "-1.5");
}

#[test]
fn a_string_constant_gives_its_text() {
    assert_eq!(
        Constant::String("\"abc\"".to_string()).as_string(),
        Some("abc".to_string())
    );
    assert_eq!(
        Constant::String("abc".to_string()).as_string(),
        Some("abc".to_string())
    );
    assert_eq!(Constant::U64(1).as_string(), None);
    assert_eq!(Constant::Ident(ident(None, "abc")).as_string(), None);
}

#[test]
fn decimal_digits() {
    assert_eq!(format_u64(0), "0");
    assert_eq!(format_u64(9), "9");
    assert_eq!(format_u64(10), "10");
    assert_eq!(format_u64(1234567890), "1234567890");
    assert_eq!(format_i64(-1), "-1");
    assert_eq!(format_i64(0), "0");
    assert_eq!(format_i64(-1000), "-1000");
}

fn sample() -> Message {
    parse_string(
        "package t; @m1 @m2(x) message M { @default(other = 1, value = 2, value = 3) @default(value = 4) int32 a; string b; int32 a; }",
    )
    .map(|mut f| f.schema.messages.remove(0))
    .unwrap_or_default()
}

#[test]
fn a_message_finds_its_fields_by_name() {
    let m = sample();
    assert_eq!(m.fields.len(), 3);
    assert_eq!(m.get_field("a").map(|f| f.number), Some(1));
    assert_eq!(m.get_field("b").map(|f| f.number), Some(2));
    assert!(m.get_field("c").is_none());
    assert!(Message::default().get_field("a").is_none());
}

#[test]
fn a_field_gives_its_default_value() {
    let m = parse_string(
        "package t; message M { @default(other = 1, value = 2, value = 3) @default(value = 4) int32 a; @default(v = 1) string b; string c; }",
    )
    .unwrap()
    .schema
    .messages
    .remove(0);
    assert_eq!(m.fields[0].default_value(), Some(Constant::U64(2)));
    assert_eq!(m.fields[1].default_value(), None);
    assert_eq!(m.fields[2].default_value(), None);
}

#[test]
fn declarations_give_their_attributes() {
    let schema: Schema = parse_string(
        "package t; option o = 1; @m1 @m2(x) message M { @f string a; } @e enum E { } @s service S { @r rpc f(); }",
    )
    .unwrap()
    .schema;
    let m = &schema.messages[0];
    let keys = |mut cursor: Attributes| {
        let mut out = Vec::new();
        while let Some(a) = cursor.next() {
            out.push(a.key.display());
        }
        out
    };
    assert_eq!(keys(m.attributes()), vec!["_source", "m1", "m2"]);
    assert_eq!(keys(m.fields[0].attributes()), vec!["_source", "f"]);
    assert_eq!(keys(schema.enums[0].attributes()), vec!["_source", "e"]);
    assert_eq!(keys(schema.services[0].attributes()), vec!["_source", "s"]);
    assert_eq!(keys(schema.services[0].methods[0].attributes()), vec!["r"]);
    assert_eq!(
        keys(schema.attributes()),
        vec!["option", "midl_parser_version"]
    );
    assert!(m.get_attribute("m2").is_some());
    assert!(m.get_attribute("m3").is_none());
    assert!(schema.enums[0].get_attribute("e").is_some());
    assert!(schema.services[0].get_attribute("s").is_some());
    assert!(schema.services[0].methods[0].get_attribute("r").is_some());
    assert!(schema.get_attribute("option").is_some());
    assert!(schema.get_attribute("_source").is_none());
}

#[test]
fn clones_are_equal() {
    let file: FileDescriptor = parse_string(
        "import 'x'; package a.b; @m message M { message N { [int8] x; } enum E { A = 1; } map<string, N> n = 4; } service S { @r rpc f(M) -> N; }",
    )
    .unwrap();
    let copy = file.clone();
    assert_eq!(copy, file);
    assert_eq!(copy.schema.messages[0].messages[0].fields[0].name, "x");
    let import = Import {
        path: "p".to_string(),
        vis: ImportVis::Weak,
    };
    assert_eq!(import.clone(), import);
    assert_eq!(ImportVis::default(), ImportVis::Default);
}

#[test]
fn the_texts_of_positions_and_errors() {
    assert_eq!(Loc { line: 12, col: 3 }.to_text(), "12:3");
    assert_eq!(LexerError::IncorrectInput.to_text(), "Incorrect input");
    assert_eq!(LexerError::UnexpectedEof.to_text(), "Unexpected EOF");
    assert_eq!(LexerError::ParseIntError.to_text(), "Parse int error");
    assert_eq!(LexerError::ExpectHexDigit.to_text(), "Expecting hex digit");
    assert_eq!(
        StrLitDecodeError::OtherError.to_text(),
        "String literal decode error"
    );
    assert_eq!(
        TokenizerError::ExpectNamedIdent("enum".to_string()).to_text(),
        "Expecting identifier enum"
    );
    assert_eq!(TokenizerError::ExpectChar(';').to_text(), "Expecting char ;");
    assert_eq!(
        TokenizerError::ExpectAnyChar(vec!['a', 'b', 'c']).to_text(),
        "Expecting one of: a, b, c"
    );
    assert_eq!(
        TokenizerError::ExpectAnyChar(vec!['a']).to_text(),
        "Expecting one of: a"
    );
    assert_eq!(
        TokenizerError::ExpectAnyChar(vec![]).to_text(),
        "Expecting one of: "
    );
    assert_eq!(
        TokenizerError::InternalError.to_text(),
        "Internal tokenizer error"
    );
    assert_eq!(TokenizerError::ExpectStrLit.to_text(), "Expecting string literal");
    assert_eq!(TokenizerError::ExpectIntLit.to_text(), "Expecting int literal");
    assert_eq!(TokenizerError::ExpectFloatLit.to_text(), "Expecting float literal");
    assert_eq!(
        TokenizerError::from(LexerError::UnexpectedEof).to_text(),
        "Unexpected EOF"
    );
    assert_eq!(
        ParserError::DuplicateFieldNumber(4294967295).to_text(),
        "duplicate field number (4294967295)"
    );
    assert_eq!(
        ParserError::from(LexerError::ParseIntError).to_text(),
        "lexer error: Parse int error"
    );
    assert_eq!(
        ParserError::from(StrLitDecodeError::FromUtf8Error).to_text(),
        "string literal decode error: invalid utf-8 sequence"
    );
    assert_eq!(
        ParserError::from(TokenizerError::ExpectIdent).to_text(),
        "Expecting identifier"
    );
    assert_eq!(ParserError::from(Overflow).to_text(), "integer overflow");
    assert_eq!(
        ParserError::MapKeyType.to_text(),
        "unsupported map key type: must be an integer type or string"
    );
    assert_eq!(
        ParserError::RepeatedArray.to_text(),
        "use 'repeated' or array[], but not both"
    );
    assert_eq!(
        ParserError::DanglingAttributes.to_text(),
        "'@' attributes defined without applicable type or service"
    );
    assert_eq!(
        ParserError::MissingPackage.to_text(),
        "missing required 'package' statement"
    );
    assert_eq!(
        ParserError::OnlyOnePackage.to_text(),
        "Only one package declaration is allowed per midl file"
    );
    assert_eq!(
        ParserError::Serialization("x".to_string()).to_text(),
        "serialization error: x"
    );
    assert_eq!(
        ParserError::InternalHash("y".to_string()).to_text(),
        "internal hash error y"
    );
    assert_eq!(
        ParserErrorWithLocation {
            error: ParserError::ExpectConstant,
            line: 3,
            col: 14
        }
        .to_text(),
        "at 3:14: expecting a constant"
    );
    assert_eq!(
        StrLitDecodeError::from(LexerError::UnexpectedEof),
        StrLitDecodeError::OtherError
    );
}

#[test]
fn module_names_come_from_file_names() {
    assert_eq!(module_name_from_file("../foo/bar.midl"), "bar");
    assert_eq!(module_name_from_file("FooBar.v1.midl"), "foo_bar");
    assert_eq!(module_name_from_file("a/b/HTTPServer"), "http_server");
    assert_eq!(file_stem("../foo/bar.midl"), "bar");
    assert_eq!(file_stem("a.b/c"), "c");
    assert_eq!(file_stem("a/"), "");
    assert_eq!(file_stem(".hidden"), "");
    assert_eq!(file_stem(""), "");
    assert_eq!(file_stem("x/y.tar.gz"), "y");
}

#[test]
fn runtime_errors_keep_their_kind() {
    let e = new(ErrorKind::HostError("down".to_string()));
    assert!(matches!(e.kind(), ErrorKind::HostError(s) if s == "down"));
    assert_eq!(e.description(), "Host Error");
    assert!(matches!(e.into_kind(), ErrorKind::HostError(_)));
    let utf8 = String::from_utf8(vec![0xff]).unwrap_err();
    assert_eq!(new(ErrorKind::UTF8(utf8)).description(), "UTF8 encoding failure");
    let e = new(ErrorKind::BadDispatch("op".to_string()));
    assert_eq!(e.description(), "Bad dispatch");
}

#[test]
fn rust_types_for_schema_types() {
    let rust = |t: FieldType| field_type_to_rust_type(&t);
    assert_eq!(rust(FieldType::Uint8), Ok("u8".to_string()));
    assert_eq!(rust(FieldType::Uint32), Ok("u32".to_string()));
    assert_eq!(rust(FieldType::Uint64), Ok("u64".to_string()));
    assert_eq!(rust(FieldType::Int8), Ok("u8".to_string()));
    assert_eq!(rust(FieldType::Int32), Ok("u32".to_string()));
    assert_eq!(rust(FieldType::Int64), Ok("u64".to_string()));
    assert_eq!(rust(FieldType::Bool), Ok("bool".to_string()));
    assert_eq!(rust(FieldType::Float32), Ok("f32".to_string()));
    assert_eq!(rust(FieldType::Float64), Ok("f64".to_string()));
    assert_eq!(rust(FieldType::String), Ok("String".to_string()));
    assert_eq!(rust(FieldType::Bytes), Ok("Vec<u8>".to_string()));
    assert_eq!(
        rust(FieldType::ObjectOrEnum(ident(Some("a.b"), "Thing"))),
        Ok("Thing".to_string())
    );
    assert_eq!(
        rust(FieldType::Array(Box::new(FieldType::Array(Box::new(FieldType::Bool))))),
        Ok("Vec<Vec<bool>>".to_string())
    );
    assert_eq!(
        rust(FieldType::Mapping(Box::new((
            FieldType::String,
            FieldType::Array(Box::new(FieldType::Uint8))
        )))),
        Ok("std::collections::HashMap<String,Vec<u8>>".to_string())
    );
    assert_eq!(
        rust(FieldType::Datetime),
        Err("unexpected string type String(\"Datetime\")".to_string())
    );
    assert_eq!(
        rust(FieldType::Array(Box::new(FieldType::Datetime))),
        Err("invalid array item type unexpected string type String(\"Datetime\")".to_string())
    );
    assert_eq!(
        rust(FieldType::Mapping(Box::new((FieldType::Datetime, FieldType::Bool)))),
        Err("invalid map key type unexpected string type String(\"Datetime\")".to_string())
    );
    assert_eq!(
        rust(FieldType::Mapping(Box::new((FieldType::Bool, FieldType::Datetime)))),
        Err("invalid map value type unexpected string type String(\"Datetime\")".to_string())
    );
}

#[test]
fn rust_is_the_one_language() {
    assert_eq!(OutputLanguage::from_name("rust"), Ok(OutputLanguage::Rust));
    assert_eq!(
        OutputLanguage::from_name("Rust"),
        Err("Unsupported language Rust".to_string())
    );
    assert_eq!(
        OutputLanguage::from_name(""),
        Err("Unsupported language ".to_string())
    );
    assert_eq!(OutputLanguage::default(), OutputLanguage::Rust);
}
