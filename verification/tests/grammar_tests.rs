use midl_parser::descriptor::{FileDescriptor, ImportVis};
use midl_parser::lexer::loc::Loc;
use midl_parser::lexer::token::{LexerError, ParserLanguage, StrLitDecodeError, Token};
use midl_parser::lexer::tokenizer::{Mark, Tokenizer, TokenizerError};
use midl_parser::model::{
    Attribute, Constant, FieldType, HasAttributes, Ident, Message, Schema, Service,
};
use midl_parser::parser::error::{ParserError, ParserErrorWithLocation};
use midl_parser::parser::parser_impl::Parser;
use midl_parser::parser::syntax::Occurrence;

fn schema_form(schema: &Schema) -> Result<Vec<u8>, String> {
    Ok(format!("{:?}", schema).into_bytes())
}

fn service_form(service: &Service) -> Result<Vec<u8>, String> {
    Ok(format!("{:?}", service).into_bytes())
}

fn parse_string(text: &str) -> Result<FileDescriptor, ParserErrorWithLocation> {
    midl_parser::parse_string(text, schema_form, service_form)
}

fn schema_of(text: &str) -> Schema {
    match parse_string(text) {
        Ok(file) => file.schema,
        Err(e) => panic!("{}", e.to_text()),
    }
}

fn error_of(text: &str) -> ParserErrorWithLocation {
    parse_string(text).err().expect("a parse error")
}

fn message_of(text: &str) -> Message {
    let mut schema = schema_of(text);
    assert_eq!(schema.messages.len(), 1);
    schema.messages.remove(0)
}

fn source(line: u64, col: u64) -> Attribute {
    Attribute {
        key: Ident {
            namespace: None,
            name: "_source".to_string(),
        },
        values: vec![
            ("line".to_string(), Constant::U64(line)),
            ("col".to_string(), Constant::U64(col)),
        ],
    }
}

fn ident(name: &str) -> Ident {
    Ident {
        namespace: None,
        name: name.to_string(),
    }
}

#[test]
fn one_message_with_one_field() {
    let a = message_of("package t; message A { string b = 1; }");
    assert_eq!(a.name, ident("A"));
    assert_eq!(a.fields.len(), 1);
    let b = &a.fields[0];
    assert_eq!(b.name, "b");
    assert_eq!(b.typ, FieldType::String);
    assert_eq!(b.number, 1);
    assert!(!b.optional);
}

#[test]
fn omitted_numbers_count_from_one() {
    let a = message_of("package t; message A { string x; int32 y; [bool] z?; bytes w = 0; }");
    let numbers: Vec<u32> = a.fields.iter().map(|f| f.number).collect();
    assert_eq!(numbers, vec![1, 2, 3, 4]);
    assert!(a.fields[2].optional);
}

#[test]
fn a_default_number_counts_the_fields_before_it() {
    let a = message_of("package t; message A { string x = 7; int32 y; }");
    let numbers: Vec<u32> = a.fields.iter().map(|f| f.number).collect();
    assert_eq!(numbers, vec![7, 2]);
}

#[test]
fn field_attribute_values_in_order() {
    let a = message_of("package t; message A { @a1(k1,k2=100) string b=1; }");
    let attr = a.fields[0].get_attribute("a1").unwrap();
    assert_eq!(
        attr.values,
        vec![
            ("k1".to_string(), Constant::Bool(true)),
            ("k2".to_string(), Constant::U64(100)),
        ]
    );
    assert!(a.get_attribute("a1").is_none());
}

#[test]
fn message_attribute_values_in_order() {
    let a = message_of("package t; @a1(k1,k2=100) message A { string b=1; }");
    let attr = a.get_attribute("a1").unwrap();
    assert_eq!(
        attr.values,
        vec![
            ("k1".to_string(), Constant::Bool(true)),
            ("k2".to_string(), Constant::U64(100)),
        ]
    );
}

#[test]
fn message_attribute_without_values() {
    let a = message_of("package t; @a1 message A { string b = 1; }");
    let attr = a.get_attribute("a1").unwrap();
    assert!(attr.values.is_empty());
    assert_eq!(a.attributes.len(), 2);
}

#[test]
fn attribute_forms() {
    let a = message_of(
        r#"package t; message A {
            @flag
            @doc("hear ye")
            @max(95,)
            @precision(scale = 2, round="down", exact,);
            @ns.key(v = other.name, w = -1.5, x = +3, y = -4, z = inf)
            string b = 1;
        }"#,
    );
    let f = &a.fields[0];
    assert_eq!(f.attributes.len(), 6);
    assert_eq!(f.attributes[0], source(7, 13));
    assert!(f.get_attribute("flag").unwrap().values.is_empty());
    assert_eq!(
        f.get_attribute("doc").unwrap().values,
        vec![("_".to_string(), Constant::String("\"hear ye\"".to_string()))]
    );
    assert_eq!(
        f.get_attribute("max").unwrap().values,
        vec![("_".to_string(), Constant::U64(95))]
    );
    assert_eq!(
        f.get_attribute("precision").unwrap().values,
        vec![
            ("scale".to_string(), Constant::U64(2)),
            ("round".to_string(), Constant::String("\"down\"".to_string())),
            ("exact".to_string(), Constant::Bool(true)),
        ]
    );
    let keyed = f.get_attribute("ns.key").unwrap();
    assert_eq!(
        keyed.key,
        Ident {
            namespace: Some("ns".to_string()),
            name: "key".to_string()
        }
    );
    assert_eq!(
        keyed.values,
        vec![
            (
                "v".to_string(),
                Constant::Ident(Ident {
                    namespace: Some("other".to_string()),
                    name: "name".to_string()
                })
            ),
            ("w".to_string(), Constant::F64("-1.5".to_string())),
            ("x".to_string(), Constant::U64(3)),
            ("y".to_string(), Constant::I64(-4)),
            ("z".to_string(), Constant::F64("inf".to_string())),
        ]
    );
}

#[test]
fn declarations_record_where_they_stand() {
    let schema = schema_of(
        "package t;\nmessage A {\n  string b;\n}\n  enum E { X = 0; }\nservice S {\n}\n",
    );
    assert_eq!(schema.messages[0].attributes, vec![source(2, 11)]);
    assert_eq!(schema.messages[0].fields[0].attributes, vec![source(3, 3)]);
    assert_eq!(schema.enums[0].attributes, vec![source(5, 3)]);
    assert_eq!(schema.services[0].attributes, vec![source(6, 1)]);
}

#[test]
fn paths_take_dots_and_double_colons() {
    let schema = schema_of("package a.b::c; message M { x::y.Z f; }");
    assert_eq!(
        schema.namespace,
        Ident {
            namespace: Some("a.b".to_string()),
            name: "c".to_string()
        }
    );
    assert_eq!(
        schema.messages[0].fields[0].typ,
        FieldType::ObjectOrEnum(Ident {
            namespace: Some("x.y".to_string()),
            name: "Z".to_string()
        })
    );
}

#[test]
fn imports_with_their_visibility() {
    let file = parse_string(
        "import \"a.midl\"; import weak 'b\\x2fc'; import public \"d\" \"e\"; package t;",
    )
    .unwrap();
    let got: Vec<(String, ImportVis)> =
        file.imports.into_iter().map(|i| (i.path, i.vis)).collect();
    assert_eq!(
        got,
        vec![
            ("a.midl".to_string(), ImportVis::Default),
            ("b/c".to_string(), ImportVis::Weak),
            ("de".to_string(), ImportVis::Public),
        ]
    );
}

#[test]
fn options_become_attributes() {
    let schema = schema_of(
        "package t; option a.b = 1; message M { option deprecated = true; } enum E { option x = 'y'; A = 1; }",
    );
    assert_eq!(schema.attributes.len(), 2);
    assert_eq!(
        schema.attributes[0],
        Attribute {
            key: ident("option"),
            values: vec![("a.b".to_string(), Constant::U64(1))]
        }
    );
    assert_eq!(
        schema.messages[0].attributes[1],
        Attribute {
            key: ident("option"),
            values: vec![("deprecated".to_string(), Constant::Bool(true))]
        }
    );
    assert_eq!(
        schema.enums[0].attributes[1],
        Attribute {
            key: ident("option"),
            values: vec![("x".to_string(), Constant::String("\"y\"".to_string()))]
        }
    );
}

#[test]
fn labels_and_types() {
    let a = message_of(
        "package t; message A { repeated int32 a; optional [string] b; required map<int8, [M]> c; map<string, map<uint64, bool>> d; }",
    );
    assert_eq!(a.fields[0].typ, FieldType::Array(Box::new(FieldType::Int32)));
    assert!(!a.fields[0].optional);
    assert_eq!(a.fields[1].typ, FieldType::Array(Box::new(FieldType::String)));
    assert!(a.fields[1].optional);
    assert_eq!(
        a.fields[2].typ,
        FieldType::Mapping(Box::new((
            FieldType::Int8,
            FieldType::Array(Box::new(FieldType::ObjectOrEnum(ident("M"))))
        )))
    );
    assert_eq!(
        a.fields[3].typ,
        FieldType::Mapping(Box::new((
            FieldType::String,
            FieldType::Mapping(Box::new((FieldType::Uint64, FieldType::Bool)))
        )))
    );
}

#[test]
fn enumerations_with_signed_numbers() {
    let schema = schema_of(
        "package t; enum E { ; A = 0; B = -1 ; C = 2147483647; D = -2147483648; E = 0x10; }",
    );
    let e = &schema.enums[0];
    assert_eq!(e.name, "E");
    let got: Vec<(String, i32)> = e.values.iter().map(|v| (v.name.clone(), v.number)).collect();
    assert_eq!(
        got,
        vec![
            ("A".to_string(), 0),
            ("B".to_string(), -1),
            ("C".to_string(), i32::MAX),
            ("D".to_string(), i32::MIN),
            ("E".to_string(), 16),
        ]
    );
}

#[test]
fn enumeration_numbers_must_fit() {
    assert!(matches!(
        error_of("package t; enum E { A = 2147483648; }").error,
        ParserError::IntegerOverflow
    ));
    assert!(matches!(
        error_of("package t; enum E { A = -2147483649; }").error,
        ParserError::IntegerOverflow
    ));
    assert!(matches!(
        error_of("package t; enum E { A = -18446744073709551615; }").error,
        ParserError::IntegerOverflow
    ));
}

#[test]
fn negated_constants_must_fit() {
    let a = message_of("package t; message A { @d(v = -9223372036854775808) int64 x; }");
    assert_eq!(
        a.fields[0].get_attribute("d").unwrap().values,
        vec![("v".to_string(), Constant::I64(i64::MIN))]
    );
    assert!(matches!(
        error_of("package t; message A { @d(v = -9223372036854775809) int64 x; }").error,
        ParserError::IntegerOverflow
    ));
}

#[test]
fn services_and_methods() {
    let schema = schema_of(
        r#"package t;
        @svc
        service S {
            rpc a();
            @doc("b")
            rpc b(int32) returns ([string]);
            rpc c(M) -> ();
            rpc d() returns N;
            rpc e(map<string,bool>) -> x.Y;
            ;
        }"#,
    );
    let s = &schema.services[0];
    assert_eq!(s.name, ident("S"));
    assert!(s.schema.is_some());
    assert_eq!(s.schema_id.as_ref().map(|id| id.len()), Some(43));
    assert!(s.get_attribute("svc").is_some());
    let got: Vec<(String, Option<FieldType>, Option<FieldType>, usize)> = s
        .methods
        .iter()
        .map(|m| {
            (
                m.name.clone(),
                m.input_type.clone(),
                m.output_type.clone(),
                m.attributes.len(),
            )
        })
        .collect();
    assert_eq!(
        got,
        vec![
            ("a".to_string(), None, None, 0),
            (
                "b".to_string(),
                Some(FieldType::Int32),
                Some(FieldType::Array(Box::new(FieldType::String))),
                1
            ),
            (
                "c".to_string(),
                Some(FieldType::ObjectOrEnum(ident("M"))),
                None,
                0
            ),
            (
                "d".to_string(),
                None,
                Some(FieldType::ObjectOrEnum(ident("N"))),
                0
            ),
            (
                "e".to_string(),
                Some(FieldType::Mapping(Box::new((
                    FieldType::String,
                    FieldType::Bool
                )))),
                Some(FieldType::ObjectOrEnum(Ident {
                    namespace: Some("x".to_string()),
                    name: "Y".to_string()
                })),
                0
            ),
        ]
    );
}

#[test]
fn a_service_takes_methods_only() {
    assert!(matches!(
        error_of("package t; service S { string x = 1; }").error,
        ParserError::IncorrectInput
    ));
    assert!(matches!(
        error_of("package t; service S { @a }").error,
        ParserError::DanglingAttributes
    ));
}

#[test]
fn statements_in_any_order() {
    let schema = schema_of("message A {} ; enum E {} service S {} package t; message B {}");
    assert_eq!(schema.namespace, ident("t"));
    assert_eq!(schema.messages.len(), 2);
    assert_eq!(schema.enums.len(), 1);
    assert_eq!(schema.services.len(), 1);
    assert_eq!(schema.attributes.len(), 1);
    assert_eq!(schema.attributes[0].key, ident("midl_parser_version"));
}

#[test]
fn an_unknown_statement_is_incorrect_input() {
    let e = error_of("package t; 42");
    assert!(matches!(e.error, ParserError::IncorrectInput));
    assert_eq!((e.line, e.col), (1, 12));
}

#[test]
fn the_error_is_on_the_line_of_the_bad_token() {
    let e = error_of("package t; message Foo { dfgdg }");
    assert!(matches!(
        e.error,
        ParserError::TokenizerError(TokenizerError::ExpectIdent)
    ));
    assert_eq!(e.line, 1);
    assert_eq!(e.col, 32);
    let e = error_of("package t;\nmessage Foo {\n  dfgdg\n}");
    assert_eq!((e.line, e.col), (4, 1));
    assert_eq!(e.to_text(), "at 4:1: Expecting identifier");
}

#[test]
fn a_file_needs_its_package() {
    assert!(matches!(
        error_of("message A { string b = 1; }").error,
        ParserError::MissingPackage
    ));
    assert!(matches!(error_of("").error, ParserError::MissingPackage));
    let e = error_of("  \n ");
    assert!(matches!(e.error, ParserError::MissingPackage));
    assert_eq!((e.line, e.col), (2, 2));
}

#[test]
fn a_file_has_one_package_only() {
    assert!(matches!(
        error_of("package t; package u;").error,
        ParserError::OnlyOnePackage
    ));
    assert!(matches!(
        error_of("package t; message A {} package t;").error,
        ParserError::OnlyOnePackage
    ));
}

#[test]
fn attributes_must_not_dangle() {
    assert!(matches!(
        error_of("package t; message A { string b = 1; @a1 }").error,
        ParserError::DanglingAttributes
    ));
    assert!(matches!(
        error_of("package t; message A { } @a1(x)").error,
        ParserError::DanglingAttributes
    ));
    assert!(matches!(
        error_of("@a1 package t;").error,
        ParserError::DanglingAttributes
    ));
    assert!(matches!(
        error_of("package t; @a1 import 'x';").error,
        ParserError::DanglingAttributes
    ));
    assert!(matches!(
        error_of("package t; @a1 option x = 1;").error,
        ParserError::DanglingAttributes
    ));
    assert!(matches!(
        error_of("package t; @a1 @a2 ;").error,
        ParserError::DanglingAttributes
    ));
}

#[test]
fn map_keys_are_integers_or_strings() {
    assert!(matches!(
        error_of("package t; message A { map<bool,string> m = 1; }").error,
        ParserError::MapKeyType
    ));
    assert!(matches!(
        error_of("package t; message A { map<M,string> m = 1; }").error,
        ParserError::MapKeyType
    ));
    assert!(matches!(
        error_of("package t; message A { map<[int32],string> m = 1; }").error,
        ParserError::MapKeyType
    ));
    for key in ["int8", "int32", "int64", "uint8", "uint32", "uint64", "string"] {
        let text = format!("package t; message A {{ map<{},bytes> m = 1; }}", key);
        assert_eq!(message_of(&text).fields.len(), 1);
    }
}

#[test]
fn repeated_and_brackets_conflict() {
    assert!(matches!(
        error_of("package t; message A { repeated [int32] x = 1; }").error,
        ParserError::RepeatedArray
    ));
}

#[test]
fn field_numbers_are_unique() {
    let e = error_of("package t; message A { string a = 3; int32 b = 3; }");
    assert!(matches!(e.error, ParserError::DuplicateFieldNumber(3)));
    assert_eq!(e.to_text(), "at 1:49: duplicate field number (3)");
    assert!(matches!(
        error_of("package t; message A { string a = 2; int32 b; }").error,
        ParserError::DuplicateFieldNumber(2)
    ));
    let nested = message_of("package t; message A { string a = 1; message B { string b = 1; } }");
    assert_eq!(nested.messages[0].fields[0].number, 1);
}

#[test]
fn each_kind_of_error() {
    assert!(matches!(
        error_of("package t; message A { string b = x; }").error,
        ParserError::IncorrectInput
    ));
    assert!(matches!(
        error_of("package t; option a = ;").error,
        ParserError::ExpectConstant
    ));
    assert!(matches!(
        error_of("package t; option a = +x;").error,
        ParserError::LexerError(LexerError::IncorrectInput)
    ));
    assert!(matches!(
        error_of("import \"\\xff\"; package t;").error,
        ParserError::StrLitDecodeError(StrLitDecodeError::FromUtf8Error)
    ));
    assert!(matches!(
        error_of("import \"\\400\"; package t;").error,
        ParserError::TokenizerError(TokenizerError::LexerError(LexerError::IncorrectInput))
    ));
    assert!(matches!(
        error_of("import 5; package t;").error,
        ParserError::TokenizerError(TokenizerError::ExpectStrLit)
    ));
    assert!(matches!(
        error_of("package t").error,
        ParserError::TokenizerError(TokenizerError::ExpectChar(';'))
    ));
    assert!(matches!(
        error_of("package").error,
        ParserError::TokenizerError(TokenizerError::UnexpectedEof)
    ));
    assert!(matches!(
        error_of("package t; message A { string").error,
        ParserError::TokenizerError(TokenizerError::UnexpectedEof)
    ));
    assert!(matches!(
        error_of("package t; message A { string b = 99999999999999999999; }").error,
        ParserError::TokenizerError(TokenizerError::LexerError(LexerError::ParseIntError))
    ));
}

#[test]
fn a_lexer_error_waits_until_the_parser_gets_there() {
    let e = error_of("package t; 42 \"never closed");
    assert!(matches!(e.error, ParserError::IncorrectInput));
    let e = error_of("package t; \"never closed");
    assert!(matches!(
        e.error,
        ParserError::TokenizerError(TokenizerError::LexerError(LexerError::UnexpectedEof))
    ));
    assert_eq!((e.line, e.col), (1, 10));
}

#[test]
fn field_numbers_must_fit() {
    let a = message_of("package t; message A { string b = 4294967295; }");
    assert_eq!(a.fields[0].number, u32::MAX);
    let e = error_of("package t; message A { string b = 4294967297; }");
    assert!(matches!(e.error, ParserError::IntegerOverflow));
    assert_eq!((e.line, e.col), (1, 35));
    let e = error_of("package t; message A { string b = 4294967296; }");
    assert!(matches!(e.error, ParserError::IntegerOverflow));
    let mut p = Parser::new("18446744073709551615");
    assert_eq!(p.next_field_number(), Err(ParserError::IntegerOverflow));
}

#[test]
fn the_parts_of_the_grammar_one_by_one() {
    let mut p = Parser::new("a.b::c ; true false 7 1.5 x optional required repeated z [int8] map<string,bool> = 9 -5");
    assert_eq!(
        p.next_full_ident().unwrap(),
        Ident {
            namespace: Some("a.b".to_string()),
            name: "c".to_string()
        }
    );
    assert_eq!(p.next_empty_statement_opt().unwrap(), Some(()));
    assert_eq!(p.next_empty_statement_opt().unwrap(), None);
    assert_eq!(p.next_bool_lit_opt().unwrap(), Some(true));
    assert_eq!(p.next_bool_lit_opt().unwrap(), Some(false));
    assert_eq!(p.next_bool_lit_opt().unwrap(), None);
    assert_eq!(p.next_int_lit().unwrap(), 7);
    assert_eq!(p.next_lit_opt().unwrap(), Some(Constant::F64("1.5".to_string())));
    assert_eq!(p.next_constant().unwrap(), Constant::Ident(ident("x")));
    assert_eq!(p.next_label().unwrap(), Some(Occurrence::Optional));
    assert_eq!(p.next_label().unwrap(), Some(Occurrence::Required));
    assert_eq!(p.next_label().unwrap(), Some(Occurrence::Repeated));
    assert_eq!(p.next_label().unwrap(), None);
    assert_eq!(p.next_map_field_type_opt().unwrap(), None);
    assert_eq!(p.next_array_field_type_opt().unwrap(), None);
    assert_eq!(p.next_field_type().unwrap(), FieldType::ObjectOrEnum(ident("z")));
    assert_eq!(
        p.next_array_field_type_opt().unwrap(),
        Some(FieldType::Array(Box::new(FieldType::Int8)))
    );
    assert_eq!(
        p.next_map_field_type_opt().unwrap(),
        Some(FieldType::Mapping(Box::new((
            FieldType::String,
            FieldType::Bool
        ))))
    );
    assert!(p.tokenizer.next_symbol_if_eq('=').unwrap());
    assert_eq!(p.next_field_number().unwrap(), 9);
    assert_eq!(p.next_enum_value().unwrap(), -5);
    assert!(p.tokenizer.syntax_eof().unwrap());
}

#[test]
fn a_label_that_is_not_there_leaves_the_tokenizer_alone() {
    let mut p = Parser::new("a b");
    assert_eq!(p.tokenizer.next_ident().unwrap(), "a");
    assert_eq!(p.tokenizer.loc(), Loc { line: 1, col: 1 });
    assert_eq!(p.next_label().unwrap(), None);
    assert_eq!(p.tokenizer.loc(), Loc { line: 1, col: 1 });
    assert_eq!(p.tokenizer.lookahead_loc(), Loc { line: 1, col: 3 });
}

#[test]
fn the_tokenizer_reports_positions_in_order_of_priority() {
    let mut t = Tokenizer::new("  a\n bb ", ParserLanguage::Proto);
    assert_eq!(t.loc(), Loc { line: 1, col: 1 });
    assert_eq!(t.advance(), Err(TokenizerError::InternalError));
    assert_eq!(t.lookahead_loc(), Loc { line: 1, col: 3 });
    assert_eq!(t.advance(), Ok(Token::Ident("a".to_string())));
    assert_eq!(t.loc(), Loc { line: 1, col: 3 });
    assert_eq!(t.lookahead_some(), Ok(&Token::Ident("bb".to_string())));
    assert_eq!(t.loc(), Loc { line: 2, col: 2 });
    assert_eq!(t.next_ident(), Ok("bb".to_string()));
    assert_eq!(t.loc(), Loc { line: 2, col: 2 });
    assert_eq!(t.syntax_eof(), Ok(true));
    assert_eq!(t.loc(), Loc { line: 2, col: 5 });
    assert_eq!(t.lookahead_some(), Err(TokenizerError::UnexpectedEof));
    assert_eq!(t.advance(), Err(TokenizerError::InternalError));
}

#[test]
fn the_tokenizer_consumes_on_condition() {
    let mut t = Tokenizer::new("one two ; 'x' 5", ParserLanguage::Proto);
    assert_eq!(t.lookahead_is_ident("two"), Ok(false));
    assert_eq!(t.lookahead_is_ident("one"), Ok(true));
    assert_eq!(t.next_ident_if_eq_error("two"), Ok(()));
    assert_eq!(
        t.next_ident_if_eq_error("one"),
        Err(TokenizerError::IncorrectInput)
    );
    assert_eq!(t.next_ident_if_in(&["zero", "two"]), Ok(None));
    assert_eq!(
        t.next_ident_if_in(&["zero", "one"]),
        Ok(Some("one".to_string()))
    );
    assert_eq!(
        t.next_ident_expect_eq("three"),
        Err(TokenizerError::ExpectNamedIdent("three".to_string()))
    );
    assert_eq!(t.next_ident_if_eq("three"), Ok(false));
    assert_eq!(t.next_ident_expect_eq("two"), Ok(()));
    assert_eq!(t.lookahead_if_symbol(), Ok(Some(';')));
    assert_eq!(t.lookahead_is_symbol(','), Ok(false));
    assert_eq!(
        t.next_symbol_expect_eq(','),
        Err(TokenizerError::ExpectChar(','))
    );
    assert_eq!(t.next_symbol_if_eq(','), Ok(false));
    assert_eq!(t.next_symbol_if_eq(';'), Ok(true));
    assert_eq!(t.next_ident(), Err(TokenizerError::ExpectIdent));
    assert_eq!(t.lookahead_if_symbol(), Ok(None));
    let lit = t.next_str_lit().unwrap();
    assert_eq!(lit.escaped, "x");
    assert_eq!(t.next_str_lit(), Err(TokenizerError::ExpectStrLit));
    let mark: Mark = t.mark();
    assert_eq!(
        t.next_token_if(|t| matches!(t, Token::IntLit(_))),
        Ok(Some(Token::IntLit(5)))
    );
    assert_eq!(t.syntax_eof(), Ok(true));
    t.rewind(mark);
    assert_eq!(
        t.next_token_if_map(|t| match t {
            Token::IntLit(i) => Some(*i + 1),
            _ => None,
        }),
        Ok(Some(6))
    );
    t.rewind(mark);
    let checked: Result<u64, TokenizerError> = t.next_token_check_map(|t| match t {
        Token::Ident(_) => Ok(0),
        _ => Err(TokenizerError::ExpectIdent),
    });
    assert_eq!(checked, Err(TokenizerError::ExpectIdent));
    assert_eq!(t.syntax_eof(), Ok(false));
}

#[test]
fn parsing_twice_gives_the_same_file() {
    let text = "package t; @a message M { string x; } service S { rpc f(M) -> M; }";
    let one = FileDescriptor::parse(text, schema_form, service_form).unwrap();
    let two = parse_string(text).unwrap();
    assert_eq!(one.schema, two.schema);
    assert_eq!(one.imports.len(), two.imports.len());
}

#[test]
fn a_copy_of_a_parser_goes_its_own_way() {
    let mut parser = Parser::new("message A { } enum E { }");
    let mut copy = parser.clone();
    assert!(copy.next_message_opt().unwrap().is_some());
    assert_eq!(copy.tokenizer.lookahead_loc(), Loc { line: 1, col: 15 });
    assert_eq!(parser.tokenizer.loc(), Loc { line: 1, col: 1 });
    assert_eq!(parser.next_enum_opt().unwrap(), None);
    assert!(parser.next_message_opt().unwrap().is_some());
    assert!(parser.next_enum_opt().unwrap().is_some());
    let mut tokenizer = parser.tokenizer.clone();
    assert_eq!(tokenizer.syntax_eof(), Ok(true));
    assert_eq!(copy.tokenizer.syntax_eof(), Ok(false));
}
