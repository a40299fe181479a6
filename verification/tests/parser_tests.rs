use midl_parser::descriptor::FileDescriptor;
use midl_parser::model::{
    Constant, Field, FieldType, HasAttributes, Message, Schema, Service,
};
use midl_parser::parser::error::ParserError;
use midl_parser::parser::parser_impl::Parser;

type ParserResult<T> = Result<T, ParserError>;

fn schema_form(schema: &Schema) -> Result<Vec<u8>, String> {
    Ok(format!("{:?}", schema).into_bytes())
}

fn service_form(service: &Service) -> Result<Vec<u8>, String> {
    Ok(format!("{:?}", service).into_bytes())
}

fn parse<P, R>(input: &str, parse_what: P) -> R
where
    P: FnOnce(&mut Parser) -> ParserResult<R>,
{
    let mut parser = Parser::new(input);
    let r = parse_what(&mut parser)
        .expect(&format!("parse failed at {:?}", parser.tokenizer.loc()));
    let eof = parser
        .tokenizer
        .syntax_eof()
        .expect(&format!("check eof failed at {:?}", parser.tokenizer.loc()));
    assert!(eof, "{:?}", parser.tokenizer.loc());
    r
}

fn parse_opt<P, R>(input: &str, parse_what: P) -> R
where
    P: FnOnce(&mut Parser) -> ParserResult<Option<R>>,
{
    let mut parser = Parser::new(input);
    let o = parse_what(&mut parser)
        .expect(&format!("parse failed at {:?}", parser.tokenizer.loc()));
    let r = o.expect(&format!("parser returned none at {:?}", parser.tokenizer.loc()));
    assert!(parser.tokenizer.syntax_eof().unwrap());
    r
}

fn parse_file(input: &str) -> FileDescriptor {
    parse(input, |p| p.next_proto(schema_form, service_form))
}

#[test]
fn test_message() {
    let msg = r#"
        message ReferenceData
    {
        repeated ScenarioInfo  scenarioSet = 1;
        repeated CalculatedObjectInfo calculatedObjectSet = 2;
        repeated RiskFactorList riskFactorListSet = 3;
        repeated RiskMaturityInfo riskMaturitySet = 4;
        repeated IndicatorInfo indicatorSet = 5;
        repeated RiskStrikeInfo riskStrikeSet = 6;
        repeated FreeProjectionList freeProjectionListSet = 7;
        repeated ValidationProperty ValidationSet = 8;
        repeated CalcProperties calcPropertiesSet = 9;
        repeated MaturityInfo maturitySet = 10;
    }"#;

    let mess = parse_opt(msg, |p| p.next_message_opt());
    assert_eq!(10, mess.fields.len());
}

#[test]
fn test_enum() {
    let msg = r#"
        enum PairingStatus {
                DEALPAIRED        = 0;
                INVENTORYORPHAN   = 1;
                CALCULATEDORPHAN  = 2;
                CANCELED          = 3;
    }"#;

    let enumeration = parse_opt(msg, |p| p.next_enum_opt());
    assert_eq!(4, enumeration.values.len());
}

#[test]
fn test_ignore() {
    let msg = r#"
        option optimize_for = SPEED;"#;

    parse_opt(msg, |p| p.next_option_opt());
}

#[test]
fn test_import() {
    let msg = r#"package t;
    import "test_import_nested_imported_pb.proto";

    message ContainsImportedNested {
        ContainerForNested.NestedMessage m = 1;
        ContainerForNested.NestedEnum e = 2;
    }
    "#;
    let desc = parse(msg, |p| p.next_proto(schema_form, service_form));

    assert_eq!(
        vec!["test_import_nested_imported_pb.proto"],
        desc.imports.into_iter().map(|i| i.path).collect::<Vec<_>>()
    );
}

#[test]
fn test_nested_message() {
    let msg = r#"message A
    {
        message B {
            repeated int32 a = 1;
            optional string b = 2;
        }
        optional string b = 1;
    }"#;

    let mess = parse_opt(msg, |p| p.next_message_opt());
    assert_eq!(1, mess.messages.len());
}

#[test]
fn test_map() {
    let msg = r#"
        message A
    {
        optional map<string, int32> b = 1;
    }"#;

    let mess = parse_opt(msg, |p| p.next_message_opt());
    assert_eq!(1, mess.fields.len());
    match mess.fields[0].typ {
        FieldType::Mapping(ref f) => match &**f {
            &(FieldType::String, FieldType::Int32) => (),
            ref f => panic!("Expecting Map<String, Int32> found {:?}", f),
        },
        ref f => panic!("Expecting map, got {:?}", f),
    }
}

#[test]
fn test_default_value_false() {
    let msg = r#"message Sample {
            @default(value=false)
            bool x = 1;
        }"#;

    let msg = parse_opt(msg, |p| p.next_message_opt());
    let default_val = msg.fields[0].default_value();
    assert_eq!(default_val, Some(Constant::Bool(false)));
}

#[test]
fn test_default_value_true() {
    let msg = r#"
        message Sample {
            @default(value=true)
            bool x = 1;
        }"#;

    let msg = parse_opt(msg, |p| p.next_message_opt());
    let default_val = msg.fields[0].default_value();
    assert_eq!(default_val, Some(Constant::Bool(true)));
}

#[test]
fn test_default_value_int() {
    let msg = r#"message Sample {
            @default(value=17)
            int32 x = 1;
        }"#;

    let msg = parse_opt(msg, |p| p.next_message_opt());
    let default_val = msg.fields[0].default_value();
    assert_eq!(default_val, Some(Constant::U64(17)));
}

#[test]
fn test_default_value_int_neg() {
    let msg = r#"message Sample {
            @default(value= -33)
            int32 x = 1;
        }"#;

    let msg = parse_opt(msg, |p| p.next_message_opt());
    let default_val = msg.fields[0].default_value();
    assert_eq!(default_val, Some(Constant::I64(-33)));
}

#[test]
fn test_default_value_string() {
    let msg = r#"
        message Sample {
            @default(value = "ab\nc d\"g\'h\0\"z");
            optional string x = 1;
        }"#;

    let msg = parse_opt(msg, |p| p.next_message_opt());
    let default_val = msg.fields[0].default_value();
    assert_eq!(
        default_val,
        Some(Constant::String(r#""ab\nc d\"g\'h\0\"z""#.to_string()))
    );
}

#[test]
fn test_incorrect_file_descriptor() {
    let msg = r#"message Foo {
            dfgdg
        }
        "#;

    let err = FileDescriptor::parse(msg, schema_form, service_form)
        .err()
        .expect("err");
    assert_eq!(3, err.line);
}

#[test]
fn simple_message() {
    let proto = r#"package t;
        message A {
                string b = 1;
        }
        "#;
    let parsed = parse_file(proto);
    assert_eq!(parsed.schema.messages.len(), 1);
}

#[test]
fn nested_message() {
    let proto = r#"package t;
        message A
        {
            message B {
                repeated int32 a = 1;
                optional string b = 2;
            }
            optional string b = 1;
        }"#;
    let parsed = parse_file(proto);
    assert_eq!(parsed.schema.messages.len(), 1);
}

// returns the nth field in the message
fn get_field(message: &Message, n: usize) -> &Field {
    let fields = &message.fields;
    &fields.get(n).unwrap()
}

#[test]
fn data_types() {
    let proto = r#"package t;
        message A {
            int32 a = 1;
            uint32 b = 2;
            int64 c = 3;
            uint64 d = 4;
            int8 e = 5;
            uint8 f = 6;
            float32 g = 7;
            float64 h = 8;
            float i = 9; // alias for float32
            double j = 10; // alias for float64
            bool k = 11;
            string x = 12;
            bytes bb = 13;
            map<uint32,bytes> y = 14;
            [bool] ff = 15;
        }
        "#;
    let parsed = parse_file(proto);
    let message = &parsed.schema.messages.get(0).unwrap();

    assert_eq!(message.fields[0].typ, FieldType::Int32);
    assert_eq!(message.fields[1].typ, FieldType::Uint32);
    assert_eq!(message.fields[2].typ, FieldType::Int64);
    assert_eq!(message.fields[3].typ, FieldType::Uint64);
    assert_eq!(message.fields[4].typ, FieldType::Int8);
    assert_eq!(message.fields[5].typ, FieldType::Uint8);
    assert_eq!(message.fields[6].typ, FieldType::Float32);
    assert_eq!(message.fields[7].typ, FieldType::Float64);
    assert_eq!(message.fields[8].typ, FieldType::Float32);
    assert_eq!(message.fields[9].typ, FieldType::Float64);
    assert_eq!(message.fields[10].typ, FieldType::Bool);
    assert_eq!(message.fields[11].typ, FieldType::String);
    assert_eq!(message.fields[12].typ, FieldType::Bytes);

    if let FieldType::Mapping(b) = &get_field(message, 13).typ {
        assert_eq!(b.as_ref(), &(FieldType::Uint32, FieldType::Bytes));
    } else {
        assert!(false, "not a map");
    }

    if let FieldType::Array(a) = &get_field(message, 14).typ {
        assert_eq!(a.as_ref(), &FieldType::Bool);
    } else {
        assert!(false, "not an array");
    }
}

#[test]
fn proto_options() {
    let proto = r#"package t;
        option proto_foo = 99;
        message A {
                string b = 1;
        }
        "#;
    let parsed = parse_file(proto);
    // the option, and behind it the version of the parser
    assert_eq!(
        parsed.schema.attributes.len(),
        2usize,
        "proto options count"
    );
    assert_eq!(parsed.schema.attributes[1].key.name, "midl_parser_version");
    let opt = parsed.schema.attributes.get(0).unwrap();
    assert_eq!(opt.values.len(), 1usize, "proto options kv count");
    let kv = opt.values.get(0).unwrap();
    assert_eq!(kv.0, "proto_foo");
    assert_eq!(kv.1, Constant::U64(99));
}

#[test]
fn message_field() {
    let proto = r#"package t;
        message A {
                string b = 1;
        }
        "#;
    let parsed = parse_file(proto);

    let message = &parsed.schema.messages[0];
    let field = &message.fields[0];
    assert_eq!(
        (&field.typ, field.name.as_str(), field.number),
        (&FieldType::String, "b", 1)
    );
}

#[test]
fn field_attribute() {
    let proto = r#"package t;
        message A {
                @msg_foo(value = 99);
                string b = 1;
        }
        "#;
    let parsed = parse_file(proto);

    let message = &parsed.schema.messages[0];
    let field = &message.fields[0];

    let attr = field.get_attribute("msg_foo").unwrap();
    assert_eq!(attr.values.len(), 1usize, "one value");
    assert_eq!(attr.values[0], ("value".to_string(), Constant::U64(99)));
}

#[test]
fn field_attr_ident() {
    let proto = r#"package t;
        message A {
                @a1
                string b = 1;
        }
        "#;
    let parsed = parse_file(proto);
    let msg = &parsed.schema.messages[0];
    let field = &msg.fields[0];

    let attr = field.get_attribute("a1").unwrap();
    assert!(attr.values.is_empty());
}

#[test]
fn message_attr_ident() {
    let proto = r#"package t;
        @a1
        message A {
                string b = 1;
        }
        "#;
    let parsed = parse_file(proto);
    let msg = &parsed.schema.messages[0];

    let attr = msg.get_attribute("a1").unwrap();
    assert!(attr.values.is_empty());
}

#[test]
fn message_attr_values() {
    let proto = r#"package t;
        @a1(k1,k2=100)
        message A {
                string b = 1;
        }
        "#;
    let parsed = parse_file(proto);

    let msg = &parsed.schema.messages[0];

    let attr = msg.get_attribute("a1").unwrap();
    assert_eq!(attr.values.len(), 2usize);
    assert_eq!(attr.values[0], ("k1".to_string(), Constant::Bool(true)));
    assert_eq!(attr.values[1], ("k2".to_string(), Constant::U64(100)));
}

#[test]
fn optional_field() {
    let proto = r#"package t;
        message A {
                string b? = 1;
                optional string y = 2;
                string x = 3;
                required string z = 4;
        }
        "#;
    let parsed = parse_file(proto);
    let msg = &parsed.schema.messages.get(0).unwrap();
    // optional
    for i in 0..=1 {
        assert!(msg.fields.get(i).unwrap().optional);
    }
    // required
    for i in 2..=3 {
        assert!(!msg.fields.get(i).unwrap().optional);
    }
}
