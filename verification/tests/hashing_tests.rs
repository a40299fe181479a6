use midl_parser::descriptor::FileDescriptor;
use midl_parser::hashing::{seal, seal_with, sha2_hash, MIDL_PARSER_VERSION};
use midl_parser::model::{Attribute, Constant, Ident, Schema, Service};
use midl_parser::parser::error::ParserError;
use midl_parser::parser::parser_impl::{parse_string, Parser};
use sha2::{Digest, Sha256};

fn hex(bytes: &[u8]) -> String {
    bytes.iter().map(|b| format!("{:02x}", b)).collect()
}

fn b64(bytes: &[u8]) -> String {
    base64::encode_config(
        bytes,
        base64::Config::new(base64::CharacterSet::Standard, false),
    )
}

/// The file that a text declares, before it is sealed.
fn unsealed(text: &str) -> FileDescriptor {
    Parser::new(text).next_statements().unwrap()
}

fn schema_of(text: &str) -> Schema {
    unsealed(text).schema
}

/// A serialized form that covers all of a schema.
fn whole_schema(schema: &Schema) -> Result<Vec<u8>, String> {
    Ok(format!("{:?}", schema).into_bytes())
}

/// A serialized form that covers all of a service.
fn whole_service(service: &Service) -> Result<Vec<u8>, String> {
    Ok(format!("{:?}", service).into_bytes())
}

fn ids_of(text: &str) -> Vec<Option<String>> {
    parse_string(text, whole_schema, whole_service)
        .unwrap()
        .schema
        .services
        .into_iter()
        .map(|s| s.schema_id)
        .collect()
}

#[test]
fn hashes_with_sha_256() {
    assert_eq!(
        hex(&sha2_hash(vec![b"abc".as_slice()])),
        "ba7816bf8f01cfea414140de5dae2223b00361a396177a9cb410ff61f20015ad"
    );
    assert_eq!(
        hex(&sha2_hash(vec![])),
        "e3b0c44298fc1c149afbf4c8996fb92427ae41e4649b934ca495991b7852b855"
    );
}

#[test]
fn hashes_the_parts_as_one() {
    let whole = sha2_hash(vec![b"hello world".as_slice()]);
    let parts = sha2_hash(vec![b"hello".as_slice(), b"".as_slice(), b" world".as_slice()]);
    assert_eq!(whole, parts);
    assert_ne!(whole, sha2_hash(vec![b" world".as_slice(), b"hello".as_slice()]));
}

#[test]
fn seals_each_service() {
    let mut schema = schema_of("package t; service A { rpc f(); } service B { }");
    let schema_bytes = b"the schema".to_vec();
    let service_bytes = vec![b"f".to_vec(), b"fo".to_vec()];
    assert_eq!(seal(&mut schema, &schema_bytes, &service_bytes), Ok(()));

    let base = Sha256::digest(&schema_bytes).to_vec();
    let a = &schema.services[0];
    assert_eq!(a.schema.as_deref(), Some("Zg"));
    let mut joined = b"f".to_vec();
    joined.extend_from_slice(&base);
    assert_eq!(a.schema_id, Some(b64(&Sha256::digest(&joined))));
    assert_eq!(a.schema_id.as_ref().unwrap().len(), 43);
    assert!(!a.schema_id.as_ref().unwrap().contains('='));

    let b = &schema.services[1];
    assert_eq!(b.schema.as_deref(), Some("Zm8"));
    let mut joined = b"fo".to_vec();
    joined.extend_from_slice(&base);
    assert_eq!(b.schema_id, Some(b64(&Sha256::digest(&joined))));
    assert_eq!(a.methods.len(), 1);
}

#[test]
fn a_known_schema_id() {
    let mut schema = schema_of("package t; service A { }");
    assert_eq!(seal(&mut schema, &b"abc".to_vec(), &vec![b"foo".to_vec()]), Ok(()));
    assert_eq!(schema.services[0].schema.as_deref(), Some("Zm9v"));
    // sha256("foo" + sha256("abc")), in unpadded base64
    let mut joined = b"foo".to_vec();
    joined.extend_from_slice(&[
        0xba, 0x78, 0x16, 0xbf, 0x8f, 0x01, 0xcf, 0xea, 0x41, 0x41, 0x40, 0xde, 0x5d, 0xae, 0x22,
        0x23, 0xb0, 0x03, 0x61, 0xa3, 0x96, 0x17, 0x7a, 0x9c, 0xb4, 0x10, 0xff, 0x61, 0xf2, 0x00,
        0x15, 0xad,
    ]);
    assert_eq!(
        schema.services[0].schema_id,
        Some(b64(&Sha256::digest(&joined)))
    );
}

#[test]
fn sealing_records_the_version() {
    let mut schema = schema_of("package t; option a = 1;");
    assert_eq!(schema.attributes.len(), 1);
    assert_eq!(seal(&mut schema, &vec![], &vec![]), Ok(()));
    assert_eq!(schema.attributes.len(), 2);
    assert_eq!(
        schema.attributes[1],
        Attribute {
            key: Ident {
                namespace: None,
                name: "midl_parser_version".to_string()
            },
            values: vec![(
                "_".to_string(),
                Constant::String(MIDL_PARSER_VERSION.to_string())
            )],
        }
    );
}

#[test]
fn the_serialized_forms_must_fit_the_schema() {
    let mut schema = schema_of("package t; service A { } service B { }");
    let before = schema.clone();
    let r = seal(&mut schema, &b"s".to_vec(), &vec![b"a".to_vec()]);
    assert!(matches!(r, Err(ParserError::InternalHash(_))));
    assert_eq!(schema, before);
}

#[test]
fn a_schema_id_ignores_the_other_services() {
    let mut one = schema_of("package t; service A { rpc f(); } service B { rpc g(); }");
    let mut two = schema_of("package t; service A { rpc f(); } service B { rpc h(int32); }");
    let schema_bytes = b"types".to_vec();
    seal(&mut one, &schema_bytes, &vec![b"A".to_vec(), b"B1".to_vec()]).unwrap();
    seal(&mut two, &schema_bytes, &vec![b"A".to_vec(), b"B2".to_vec()]).unwrap();
    assert_eq!(one.services[0].schema_id, two.services[0].schema_id);
    assert_ne!(one.services[1].schema_id, two.services[1].schema_id);
}

#[test]
fn a_schema_id_covers_the_types() {
    let mut one = schema_of("package t; service A { }");
    let mut two = schema_of("package t; service A { }");
    seal(&mut one, &b"types".to_vec(), &vec![b"A".to_vec()]).unwrap();
    seal(&mut two, &b"other types".to_vec(), &vec![b"A".to_vec()]).unwrap();
    assert_ne!(one.services[0].schema_id, two.services[0].schema_id);
    assert_eq!(one.services[0].schema, two.services[0].schema);
}

#[test]
fn sealing_twice_gives_the_same_ids() {
    let text = "package t; message M { string x; } service S { rpc f(M) -> M; }";
    let mut one = schema_of(text);
    let mut two = schema_of(text);
    seal(&mut one, &b"m".to_vec(), &vec![b"s".to_vec()]).unwrap();
    seal(&mut two, &b"m".to_vec(), &vec![b"s".to_vec()]).unwrap();
    assert_eq!(one, two);
    assert!(one.services[0].schema_id.is_some());
}

fn schema_form(schema: &Schema) -> Result<Vec<u8>, String> {
    let names: Vec<String> = schema.messages.iter().map(|m| m.name.display()).collect();
    Ok(format!("{}:{}:{}", schema.namespace.display(), names.join(","), schema.services.len())
        .into_bytes())
}

fn service_form(service: &Service) -> Result<Vec<u8>, String> {
    if service.name.name == "Bad" {
        return Err("no form".to_string());
    }
    Ok(format!("{}/{}", service.name.display(), service.methods.len()).into_bytes())
}

#[test]
fn parses_and_seals_in_one() {
    let text = "package p; message M { } @a service S { rpc f(); rpc g(); } service T { }";
    let file = parse_string(text, schema_form, service_form).unwrap();
    let schema = &file.schema;
    let base = Sha256::digest(b"p:M:0").to_vec();
    assert_eq!(schema.services[0].schema, Some(b64(b"S/2")));
    let mut joined = b"S/2".to_vec();
    joined.extend_from_slice(&base);
    assert_eq!(schema.services[0].schema_id, Some(b64(&Sha256::digest(&joined))));
    assert_eq!(schema.services[1].schema, Some(b64(b"T/0")));
    let mut joined = b"T/0".to_vec();
    joined.extend_from_slice(&base);
    assert_eq!(schema.services[1].schema_id, Some(b64(&Sha256::digest(&joined))));
    assert_eq!(schema.services[0].attributes.len(), 2);
    assert_eq!(schema.attributes.len(), 1);
    assert_eq!(schema.attributes[0].key.name, "midl_parser_version");

    let mut by_hand = schema_of(text);
    seal(
        &mut by_hand,
        &b"p:M:0".to_vec(),
        &vec![b"S/2".to_vec(), b"T/0".to_vec()],
    )
    .unwrap();
    assert_eq!(&by_hand, schema);
}

#[test]
fn a_text_that_does_not_parse_is_not_sealed() {
    let e = parse_string("package p; service S { string x; }", schema_form, service_form)
        .err()
        .expect("a parse error");
    assert!(matches!(e.error, ParserError::IncorrectInput));
    assert_eq!((e.line, e.col), (1, 24));
}

#[test]
fn a_form_that_cannot_be_made_is_an_error() {
    let e = parse_string("package p;\nservice Bad { }\n", schema_form, service_form)
        .err()
        .expect("a serialization error");
    assert_eq!(e.error, ParserError::Serialization("no form".to_string()));
    assert_eq!((e.line, e.col), (3, 1));
    let failing = |_: &Schema| -> Result<Vec<u8>, String> { Err("schema".to_string()) };
    let e = parse_string("package p;", failing, service_form)
        .err()
        .expect("a serialization error");
    assert_eq!(e.error, ParserError::Serialization("schema".to_string()));
}

#[test]
fn the_parser_records_its_version_behind_the_options() {
    let mut p = Parser::new("package t; option proto_foo = 99; message A { string b = 1; }");
    let fd = p.next_proto(whole_schema, whole_service).unwrap();
    let a = &fd.schema.attributes;
    assert_eq!(a.len(), 2);
    assert_eq!(
        a[0],
        Attribute {
            key: Ident {
                namespace: None,
                name: "option".to_string()
            },
            values: vec![("proto_foo".to_string(), Constant::U64(99))],
        }
    );
    assert_eq!(a[1].key.name, "midl_parser_version");
    assert_eq!(a[1].values.len(), 1);
    assert_eq!(a[1].values[0].0, "_");
    assert_eq!(
        a[1].values[0].1,
        Constant::String(MIDL_PARSER_VERSION.to_string())
    );
}

#[test]
fn the_parser_fills_in_the_derived_fields() {
    let text = "package t; message M { string x; } service A { rpc f(M) -> M; } service B { }";
    let plain = unsealed(text);
    let mut bare = plain.schema.clone();
    bare.services.clear();
    let base = Sha256::digest(&whole_schema(&bare).unwrap()).to_vec();
    let fd = parse_string(text, whole_schema, whole_service).unwrap();
    assert_eq!(fd.schema.services.len(), 2);
    for (sealed, service) in fd.schema.services.iter().zip(plain.schema.services.iter()) {
        let j = whole_service(service).unwrap();
        assert_eq!(sealed.schema, Some(b64(&j)));
        let mut joined = j.clone();
        joined.extend_from_slice(&base);
        assert_eq!(sealed.schema_id, Some(b64(&Sha256::digest(&joined))));
        let id = sealed.schema_id.as_ref().unwrap();
        assert_eq!(id.len(), 43);
        assert!(!id.contains('='));
        assert_eq!(sealed.name, service.name);
        assert_eq!(sealed.methods, service.methods);
    }
    assert_eq!(fd.schema.messages, plain.schema.messages);
    assert_eq!(fd.imports, plain.imports);
}

#[test]
fn two_parses_of_one_text_give_the_same_ids() {
    let text = "package t; message M { string x; } service A { rpc f(M) -> M; } service B { }";
    let ids = ids_of(text);
    assert_eq!(ids, ids_of(text));
    assert!(ids.iter().all(|id| id.is_some()));
    assert_ne!(ids[0], ids[1]);
}

#[test]
fn the_body_of_another_service_does_not_change_an_id() {
    let one = ids_of("package t; message M { } service A { rpc f(M); } service B { rpc g(); }");
    let two = ids_of(
        "package t; message M { } service A { rpc f(M); } service B { rpc h(M) -> M; rpc i(); }",
    );
    assert_eq!(one[0], two[0]);
    assert_ne!(one[1], two[1]);
}

#[test]
fn a_change_of_a_message_changes_the_ids() {
    let base = "package t; message M { string x = 1; } service A { rpc f(M) -> M; }";
    let id = ids_of(base);
    for changed in [
        "package t; message M { string y = 1; } service A { rpc f(M) -> M; }",
        "package t; message M { int32 x = 1; } service A { rpc f(M) -> M; }",
        "package t; message M { string x = 2; } service A { rpc f(M) -> M; }",
        "package t; message M { string x? = 1; } service A { rpc f(M) -> M; }",
    ] {
        assert_ne!(id[0], ids_of(changed)[0], "{}", changed);
    }
}

#[test]
fn seals_a_file_with_the_forms_that_are_made() {
    let text = "package p; service S { rpc f(); }";
    let sealed = seal_with(unsealed(text), schema_form, service_form).unwrap();
    assert_eq!(sealed.schema.services[0].schema, Some(b64(b"S/1")));
    assert_eq!(
        Ok(sealed),
        FileDescriptor::parse(text, schema_form, service_form).map_err(|e| e.error)
    );
    assert_eq!(
        seal_with(unsealed("package p; service Bad { }"), schema_form, service_form),
        Err(ParserError::Serialization("no form".to_string()))
    );
}
