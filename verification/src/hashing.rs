//! Versioning: the compatibility hash of each service of a schema.
//!
//! The hash of a service covers the serialized form of the service and, through
//! the hash of the schema without its services, every type that the service
//! could depend on. It does not cover the other services. The serialized forms
//! are made by functions that the caller hands in.

use vstd::prelude::*;
use crate::descriptor::{FileDescriptor, FileDescriptorView};
use crate::model::{
    push_viewed, views, Attribute, AttributeView, Constant, ConstantView, Ident, IdentView,
    Schema, SchemaView, Service, ServiceView,
};
use crate::parser::error::{ParserError, ParserErrorView};
use crate::parser::syntax::parse_unsealed;

verus! {

/// The version of this parser, which every sealed schema records.
pub const MIDL_PARSER_VERSION: &'static str = "0.1.0";

/// The SHA-256 digest of `data`.
pub uninterp spec fn sha256(data: Seq<u8>) -> Seq<u8>;

/// The base64 encoding of `data`, in the standard alphabet and without padding.
pub uninterp spec fn base64_unpadded(data: Seq<u8>) -> Seq<char>;

/// Whether a sequence of `n` bytes can be encoded as base64: the length of
/// the encoding must fit the machine's word.
pub open spec fn encodable(n: nat) -> bool {
    n / 3 * 4 + 3 <= usize::MAX
}

/// `sha2::Sha256::digest` computes the SHA-256 digest of the bytes given,
/// which is 32 bytes long.
#[verifier::external_body]
fn sha256_digest(data: &Vec<u8>) -> (r: Vec<u8>)
    ensures
        r@ == sha256(data@),
        r@.len() == 32,
{
    <sha2::Sha256 as sha2::Digest>::digest(data.as_slice()).to_vec()
}

/// `base64::encode_config`, with the configuration of the standard character
/// set without padding, encodes the bytes given as base64. It panics where
/// the length of the encoding overflows, which `requires` rules out.
#[verifier::external_body]
fn base64_encode(data: &Vec<u8>) -> (r: String)
    requires
        encodable(data@.len()),
    ensures
        r@ == base64_unpadded(data@),
{
    base64::encode_config(data, base64::Config::new(base64::CharacterSet::Standard, false))
}

/// The bytes of the parts, one behind the other.
pub open spec fn concat(parts: Seq<Seq<u8>>) -> Seq<u8>
    decreases parts.len(),
{
    if parts.len() == 0 {
        seq![]
    } else {
        concat(parts.drop_last()) + parts.last()
    }
}

/// The byte sequences that a vector of byte slices holds.
pub open spec fn slices(data: Seq<&[u8]>) -> Seq<Seq<u8>> {
    Seq::new(data.len(), |i: int| data[i]@)
}

/// The SHA-256 digest of the parts taken as one sequence of bytes.
pub fn sha2_hash(data: Vec<&[u8]>) -> (r: Vec<u8>)
    ensures
        r@ == sha256(concat(slices(data@))),
        r@.len() == 32,
{
    let mut all: Vec<u8> = Vec::new();
    let mut i: usize = 0;
    assert(slices(data@).subrange(0, 0) =~= seq![]);
    while i < data.len()
        invariant
            0 <= i <= data@.len(),
            all@ == concat(slices(data@).subrange(0, i as int)),
        decreases data@.len() - i,
    {
        let part = data[i];
        let mut k: usize = 0;
        let ghost before = all@;
        while k < part.len()
            invariant
                0 <= k <= part@.len(),
                all@ == before + part@.subrange(0, k as int),
            decreases part@.len() - k,
        {
            all.push(part[k]);
            assert(part@.subrange(0, k + 1) =~= part@.subrange(0, k as int).push(part@[k as int]));
            k = k + 1;
        }
        proof {
            assert(part@.subrange(0, part@.len() as int) =~= part@);
            let next = slices(data@).subrange(0, i + 1);
            assert(next.drop_last() =~= slices(data@).subrange(0, i as int));
            assert(next.last() == part@);
        }
        i = i + 1;
    }
    assert(slices(data@).subrange(0, data@.len() as int) =~= slices(data@));
    sha256_digest(&all)
}

/// The compatibility hash of a service: the base64 encoding of the digest of
/// the service's serialized form followed by the hash of the schema without
/// its services.
pub open spec fn schema_id_of(serialized: Seq<u8>, base_hash: Seq<u8>) -> Seq<char> {
    base64_unpadded(sha256(serialized + base_hash))
}

/// A service with its derived fields filled in.
pub open spec fn sealed_service(service: ServiceView, serialized: Seq<u8>, base_hash: Seq<u8>)
    -> ServiceView {
    ServiceView {
        schema: Some(base64_unpadded(serialized)),
        schema_id: Some(schema_id_of(serialized, base_hash)),
        ..service
    }
}

/// The attribute that records the version of the parser.
pub open spec fn version_attribute() -> AttributeView {
    AttributeView {
        key: IdentView { namespace: None, name: "midl_parser_version"@ },
        values: seq![("_"@, ConstantView::String(MIDL_PARSER_VERSION@))],
    }
}

/// The schema with the derived fields of every service filled in and the
/// version of the parser recorded. `schema_bytes` is the serialized form of the
/// schema without its services, `service_bytes` that of each service.
pub open spec fn sealed(schema: SchemaView, schema_bytes: Seq<u8>, service_bytes: Seq<Seq<u8>>)
    -> SchemaView {
    SchemaView {
        services: Seq::new(
            schema.services.len(),
            |i: int| sealed_service(schema.services[i], service_bytes[i], sha256(schema_bytes)),
        ),
        attributes: schema.attributes.push(version_attribute()),
        ..schema
    }
}

/// Whether the serialized forms given fit the schema: one for each service,
/// each short enough to be encoded together with a hash behind it.
pub open spec fn sealable(schema: SchemaView, service_bytes: Seq<Seq<u8>>) -> bool {
    &&& service_bytes.len() == schema.services.len()
    &&& forall|i: int|
        0 <= i < service_bytes.len() ==> encodable((#[trigger] service_bytes[i]).len() + 32)
}

/// The byte sequences that a vector of byte vectors holds.
pub open spec fn byte_seqs(v: Seq<Vec<u8>>) -> Seq<Seq<u8>> {
    Seq::new(v.len(), |i: int| v[i]@)
}

/// Whether every one of the first `n` serialized forms is short enough.
fn all_encodable(service_bytes: &Vec<Vec<u8>>) -> (r: bool)
    ensures
        r == forall|i: int|
            0 <= i < service_bytes@.len() ==> encodable(
                (#[trigger] byte_seqs(service_bytes@)[i]).len() + 32,
            ),
{
    let mut i: usize = 0;
    while i < service_bytes.len()
        invariant
            0 <= i <= service_bytes@.len(),
            forall|k: int|
                0 <= k < i ==> encodable((#[trigger] byte_seqs(service_bytes@)[k]).len() + 32),
        decreases service_bytes@.len() - i,
    {
        let n = service_bytes[i].len();
        if n > usize::MAX - 32 || (n + 32) / 3 > (usize::MAX - 3) / 4 {
            assert(!encodable(byte_seqs(service_bytes@)[i as int].len() + 32));
            return false;
        }
        assert(encodable(byte_seqs(service_bytes@)[i as int].len() + 32));
        i = i + 1;
    }
    true
}

/// Fills in the derived fields of `service`.
fn seal_service(service: &mut Service, serialized: &Vec<u8>, base_hash: &Vec<u8>)
    requires
        encodable(serialized@.len() + 32),
    ensures
        final(service)@ == sealed_service(old(service)@, serialized@, base_hash@),
{
    let mut parts: Vec<&[u8]> = Vec::new();
    parts.push(serialized.as_slice());
    parts.push(base_hash.as_slice());
    proof {
        let p = slices(parts@);
        assert(p.drop_last().drop_last() =~= seq![]);
        assert(concat(p.drop_last()) =~= serialized@) by {
            assert(concat(p.drop_last().drop_last()) =~= seq![]);
        }
        assert(concat(p) =~= serialized@ + base_hash@);
    }
    let hash = sha2_hash(parts);
    service.schema_id = Some(base64_encode(&hash));
    service.schema = Some(base64_encode(serialized));
}

/// The compatibility hash of a service is determined by the serialized form
/// of the service and that of the schema without its services: sealing twice
/// with the same serialized forms gives the same hash.
pub proof fn law_schema_id_is_determined(
    a: SchemaView,
    b: SchemaView,
    schema_bytes: Seq<u8>,
    a_bytes: Seq<Seq<u8>>,
    b_bytes: Seq<Seq<u8>>,
    i: int,
    j: int,
)
    requires
        0 <= i < a.services.len(),
        0 <= j < b.services.len(),
        a_bytes[i] == b_bytes[j],
    ensures
        sealed(a, schema_bytes, a_bytes).services[i].schema_id == sealed(
            b,
            schema_bytes,
            b_bytes,
        ).services[j].schema_id,
        sealed(a, schema_bytes, a_bytes).services[i].schema == sealed(
            b,
            schema_bytes,
            b_bytes,
        ).services[j].schema,
{
}

/// Two parses of the same text declare the same file, and so, sealed with
/// the same serialized forms, give the same file with the same compatibility
/// hash for every service.
pub proof fn law_same_text_same_ids(
    one: Seq<char>,
    other: Seq<char>,
    schema_bytes: Seq<u8>,
    service_bytes: Seq<Seq<u8>>,
)
    requires
        one == other,
    ensures
        parse_unsealed(one) == parse_unsealed(other),
        parse_unsealed(one) matches Ok(file) ==> sealed_file(file, schema_bytes, service_bytes)
            == sealed_file(parse_unsealed(other)->Ok_0, schema_bytes, service_bytes),
{
}

/// A sealed service carries its serialized form and its compatibility hash,
/// both in base64: the hash is the digest of the serialized form of the
/// service followed by the digest of the serialized form of the schema
/// without its services.
pub proof fn law_sealed_services_carry_ids(
    schema: SchemaView,
    schema_bytes: Seq<u8>,
    service_bytes: Seq<Seq<u8>>,
    i: int,
)
    requires
        0 <= i < schema.services.len(),
    ensures
        sealed(schema, schema_bytes, service_bytes).services[i].schema == Some(
            base64_unpadded(service_bytes[i]),
        ),
        sealed(schema, schema_bytes, service_bytes).services[i].schema_id == Some(
            base64_unpadded(sha256(service_bytes[i] + sha256(schema_bytes))),
        ),
{
}

/// Where a service has one compatibility hash in one sealed schema and
/// another in another, the serialized forms of the service or those of the
/// two schemas without their services differ.
pub proof fn law_different_ids_have_different_forms(
    a: SchemaView,
    b: SchemaView,
    a_schema_bytes: Seq<u8>,
    b_schema_bytes: Seq<u8>,
    a_bytes: Seq<Seq<u8>>,
    b_bytes: Seq<Seq<u8>>,
    i: int,
    j: int,
)
    requires
        0 <= i < a.services.len(),
        0 <= j < b.services.len(),
        sealed(a, a_schema_bytes, a_bytes).services[i].schema_id != sealed(
            b,
            b_schema_bytes,
            b_bytes,
        ).services[j].schema_id,
    ensures
        a_bytes[i] != b_bytes[j] || a_schema_bytes != b_schema_bytes,
{
}

/// The compatibility hash of a service does not depend on the other services
/// of its schema: it stays the same whatever their serialized forms are.
pub proof fn law_schema_id_ignores_siblings(
    schema: SchemaView,
    schema_bytes: Seq<u8>,
    bytes: Seq<Seq<u8>>,
    other_bytes: Seq<Seq<u8>>,
    i: int,
)
    requires
        0 <= i < schema.services.len(),
        bytes[i] == other_bytes[i],
    ensures
        sealed(schema, schema_bytes, bytes).services[i] == sealed(
            schema,
            schema_bytes,
            other_bytes,
        ).services[i],
{
}

/// Sealing changes nothing of a schema but the derived fields of its services
/// and the attributes of the schema, which get one more.
pub proof fn law_seal_keeps_declarations(
    schema: SchemaView,
    schema_bytes: Seq<u8>,
    bytes: Seq<Seq<u8>>,
    i: int,
)
    requires
        0 <= i < schema.services.len(),
    ensures
        sealed(schema, schema_bytes, bytes).namespace == schema.namespace,
        sealed(schema, schema_bytes, bytes).messages == schema.messages,
        sealed(schema, schema_bytes, bytes).enums == schema.enums,
        sealed(schema, schema_bytes, bytes).services.len() == schema.services.len(),
        sealed(schema, schema_bytes, bytes).services[i].name == schema.services[i].name,
        sealed(schema, schema_bytes, bytes).services[i].methods == schema.services[i].methods,
        sealed(schema, schema_bytes, bytes).services[i].attributes
            == schema.services[i].attributes,
        sealed(schema, schema_bytes, bytes).attributes.drop_last() == schema.attributes,
        sealed(schema, schema_bytes, bytes).attributes.last() == version_attribute(),
{
    assert(schema.attributes.push(version_attribute()).drop_last() =~= schema.attributes);
}

/// The attribute that records the version of the parser.
fn version_attrib() -> (r: Attribute)
    ensures
        r@ == version_attribute(),
{
    let mut values: Vec<(String, Constant)> = Vec::new();
    values.push(("_".to_string(), Constant::String(MIDL_PARSER_VERSION.to_string())));
    let r = Attribute {
        key: Ident::from_namespace(None, "midl_parser_version".to_string()),
        values,
    };
    assert(r@.values =~= version_attribute().values);
    r
}

/// What the error says where the serialized forms do not fit the schema.
pub open spec fn unfit_message() -> Seq<char> {
    "serialized forms do not fit the schema"@
}

/// Fills in the derived fields of every service of `schema`, and records the
/// version of the parser in the attributes of the schema.
///
/// `schema_bytes` is the serialized form of the schema without its services,
/// `service_bytes` holds the serialized form of each service, in order. Where
/// they do not fit the schema the schema is left as it was.
pub fn seal(schema: &mut Schema, schema_bytes: &Vec<u8>, service_bytes: &Vec<Vec<u8>>) -> (r:
    Result<(), ParserError>)
    ensures
        sealable(old(schema)@, byte_seqs(service_bytes@)) ==> r is Ok && final(schema)@ == sealed(
            old(schema)@,
            schema_bytes@,
            byte_seqs(service_bytes@),
        ),
        !sealable(old(schema)@, byte_seqs(service_bytes@)) ==> (r matches Err(
            ParserError::InternalHash(m),
        ) && m@ == unfit_message()) && final(schema)@ == old(schema)@,
{
    if service_bytes.len() != schema.services.len() || !all_encodable(service_bytes) {
        return Err(ParserError::InternalHash("serialized forms do not fit the schema".to_string()));
    }
    let mut parts: Vec<&[u8]> = Vec::new();
    parts.push(schema_bytes.as_slice());
    proof {
        let p = slices(parts@);
        assert(p.drop_last() =~= seq![]);
        assert(concat(p.drop_last()) =~= seq![]);
        assert(p.last() == schema_bytes@);
        assert(concat(p) =~= schema_bytes@);
    }
    let base_hash = sha2_hash(parts);
    let mut i: usize = 0;
    while i < schema.services.len()
        invariant
            0 <= i <= schema.services@.len(),
            schema.services@.len() == old(schema).services@.len(),
            service_bytes@.len() == schema.services@.len(),
            sealable(old(schema)@, byte_seqs(service_bytes@)),
            base_hash@ == sha256(schema_bytes@),
            schema.namespace == old(schema).namespace,
            schema.messages == old(schema).messages,
            schema.enums == old(schema).enums,
            schema.attributes == old(schema).attributes,
            forall|k: int|
                0 <= k < i ==> (#[trigger] schema.services@[k])@ == sealed_service(
                    old(schema).services@[k]@,
                    service_bytes@[k]@,
                    base_hash@,
                ),
            forall|k: int|
                i <= k < schema.services@.len() ==> (#[trigger] schema.services@[k])
                    == old(schema).services@[k],
        decreases schema.services@.len() - i,
    {
        assert(encodable(byte_seqs(service_bytes@)[i as int].len() + 32));
        let service = &mut schema.services[i];
        seal_service(service, &service_bytes[i], &base_hash);
        i = i + 1;
    }
    push_viewed(&mut schema.attributes, version_attrib());
    assert(schema@.services =~= sealed(
        old(schema)@,
        schema_bytes@,
        byte_seqs(service_bytes@),
    ).services);
    Ok(())
}

/// The schema without its services.
pub open spec fn without_services(schema: SchemaView) -> SchemaView {
    SchemaView { services: seq![], ..schema }
}

/// Whether `bytes` is what the function `schema_bytes_of` makes of the schema
/// `schema`.
pub open spec fn is_schema_form<F: Fn(&Schema) -> Result<Vec<u8>, String>>(
    schema_bytes_of: F,
    schema: SchemaView,
    bytes: Seq<u8>,
) -> bool {
    exists|given: Schema, made: Vec<u8>|
        given@ == schema && made@ == bytes && #[trigger] schema_bytes_of.ensures(
            (&given,),
            Ok(made),
        )
}

/// Whether `bytes` is what the function `service_bytes_of` makes of the
/// service `service`.
pub open spec fn is_service_form<G: Fn(&Service) -> Result<Vec<u8>, String>>(
    service_bytes_of: G,
    service: ServiceView,
    bytes: Seq<u8>,
) -> bool {
    exists|given: Service, made: Vec<u8>|
        given@ == service && made@ == bytes && #[trigger] service_bytes_of.ensures(
            (&given,),
            Ok(made),
        )
}

/// Whether `schema_bytes` and `service_bytes` are the serialized forms that
/// the functions given make of the schema without its services and of each
/// of its services.
pub open spec fn are_forms<
    F: Fn(&Schema) -> Result<Vec<u8>, String>,
    G: Fn(&Service) -> Result<Vec<u8>, String>,
>(
    schema_bytes_of: F,
    service_bytes_of: G,
    schema: SchemaView,
    schema_bytes: Seq<u8>,
    service_bytes: Seq<Seq<u8>>,
) -> bool {
    &&& is_schema_form(schema_bytes_of, without_services(schema), schema_bytes)
    &&& service_bytes.len() == schema.services.len()
    &&& forall|i: int|
        0 <= i < service_bytes.len() ==> is_service_form(
            service_bytes_of,
            schema.services[i],
            #[trigger] service_bytes[i],
        )
}

/// Whether the function `schema_bytes_of` may fail on the schema `schema`,
/// saying `message`.
pub open spec fn schema_form_fails<F: Fn(&Schema) -> Result<Vec<u8>, String>>(
    schema_bytes_of: F,
    schema: SchemaView,
    message: Seq<char>,
) -> bool {
    exists|given: Schema, said: String|
        given@ == schema && said@ == message && #[trigger] schema_bytes_of.ensures(
            (&given,),
            Err(said),
        )
}

/// Whether the function `service_bytes_of` may fail on the service
/// `service`, saying `message`.
pub open spec fn service_form_fails<G: Fn(&Service) -> Result<Vec<u8>, String>>(
    service_bytes_of: G,
    service: ServiceView,
    message: Seq<char>,
) -> bool {
    exists|given: Service, said: String|
        given@ == service && said@ == message && #[trigger] service_bytes_of.ensures(
            (&given,),
            Err(said),
        )
}

/// Whether `e` is the error of sealing the schema `schema` with the
/// functions given: a serialized form could not be made, and the error says
/// what the function said; or the forms were made, and one of them is too
/// long to be sealed.
pub open spec fn is_sealing_error<
    F: Fn(&Schema) -> Result<Vec<u8>, String>,
    G: Fn(&Service) -> Result<Vec<u8>, String>,
>(schema_bytes_of: F, service_bytes_of: G, schema: SchemaView, e: ParserErrorView) -> bool {
    match e {
        ParserErrorView::Serialization(m) => schema_form_fails(
            schema_bytes_of,
            without_services(schema),
            m,
        ) || exists|i: int|
            0 <= i < schema.services.len() && #[trigger] service_form_fails(
                service_bytes_of,
                schema.services[i],
                m,
            ),
        ParserErrorView::InternalHash(m) => m == unfit_message() && exists|
            schema_bytes: Seq<u8>,
            service_bytes: Seq<Seq<u8>>,
        |
            #[trigger] are_forms(
                schema_bytes_of,
                service_bytes_of,
                schema,
                schema_bytes,
                service_bytes,
            ) && !sealable(schema, service_bytes),
        _ => false,
    }
}

/// Whether the functions given always make a serialized form, and one that
/// is short enough to be sealed.
pub open spec fn forms_are_owed<
    F: Fn(&Schema) -> Result<Vec<u8>, String>,
    G: Fn(&Service) -> Result<Vec<u8>, String>,
>(schema_bytes_of: F, service_bytes_of: G) -> bool {
    &&& forall|given: &Schema, made: Result<Vec<u8>, String>| #[trigger]
        schema_bytes_of.ensures((given,), made) ==> made is Ok
    &&& forall|given: &Service, made: Result<Vec<u8>, String>| #[trigger]
        service_bytes_of.ensures((given,), made) ==> (made matches Ok(bytes) && encodable(
            bytes@.len() + 32,
        ))
}

/// The file `file` with its schema sealed.
pub open spec fn sealed_file(
    file: FileDescriptorView,
    schema_bytes: Seq<u8>,
    service_bytes: Seq<Seq<u8>>,
) -> FileDescriptorView {
    FileDescriptorView { schema: sealed(file.schema, schema_bytes, service_bytes), ..file }
}

/// Whether `r` is an outcome of sealing the file `file` with serialized
/// forms that the functions given make.
///
/// Sealed, the file has its schema sealed with forms that the functions make
/// of the schema without its services and of each service. An error is one
/// of [`is_sealing_error`]. Where the functions always make a form that is
/// short enough, the file is sealed.
pub open spec fn is_sealing<
    F: Fn(&Schema) -> Result<Vec<u8>, String>,
    G: Fn(&Service) -> Result<Vec<u8>, String>,
>(
    schema_bytes_of: F,
    service_bytes_of: G,
    file: FileDescriptorView,
    r: Result<FileDescriptorView, ParserErrorView>,
) -> bool {
    &&& match r {
        Ok(x) => exists|schema_bytes: Seq<u8>, service_bytes: Seq<Seq<u8>>|
            #[trigger] are_forms(
                schema_bytes_of,
                service_bytes_of,
                file.schema,
                schema_bytes,
                service_bytes,
            ) && sealable(file.schema, service_bytes) && x == sealed_file(
                file,
                schema_bytes,
                service_bytes,
            ),
        Err(e) => is_sealing_error(schema_bytes_of, service_bytes_of, file.schema, e),
    }
    &&& forms_are_owed(schema_bytes_of, service_bytes_of) ==> r is Ok
}

/// The view of the outcome of sealing a file.
pub open spec fn sealing_view(r: Result<FileDescriptor, ParserError>) -> Result<
    FileDescriptorView,
    ParserErrorView,
> {
    match r {
        Ok(x) => Ok(x@),
        Err(e) => Err(e@),
    }
}

/// Seals the schema of `file`: asks the functions given for the serialized
/// form of the schema without its services and for that of each service, in
/// order, and fills in the derived fields of every service and the version
/// of the parser with them.
///
/// Where a function fails, the error is `Serialization` with what the
/// function said. Where a form is too long to be sealed, it is
/// `InternalHash`.
pub fn seal_with<F, G>(file: FileDescriptor, schema_bytes_of: F, service_bytes_of: G) -> (r:
    Result<FileDescriptor, ParserError>) where
    F: Fn(&Schema) -> Result<Vec<u8>, String>,
    G: Fn(&Service) -> Result<Vec<u8>, String>,

    requires
        forall|s: &Schema| schema_bytes_of.requires((s,)),
        forall|s: &Service| service_bytes_of.requires((s,)),
    ensures
        is_sealing(schema_bytes_of, service_bytes_of, file@, sealing_view(r)),
{
    let ghost whole = file@;
    let mut out = file;
    let mut services: Vec<Service> = Vec::new();
    std::mem::swap(&mut services, &mut out.schema.services);
    assert(out.schema@ == without_services(whole.schema)) by {
        assert(views(out.schema.services@) =~= seq![]);
    }
    let schema_bytes = match schema_bytes_of(&out.schema) {
        Ok(bytes) => bytes,
        Err(message) => {
            assert(schema_form_fails(schema_bytes_of, without_services(whole.schema), message@));
            return Err(ParserError::Serialization(message));
        },
    };
    assert(is_schema_form(schema_bytes_of, without_services(whole.schema), schema_bytes@));
    let mut service_bytes: Vec<Vec<u8>> = Vec::new();
    let mut i: usize = 0;
    while i < services.len()
        invariant
            0 <= i <= services@.len(),
            whole == file@,
            views(services@) == whole.schema.services,
            service_bytes@.len() == i,
            forall|s: &Service| service_bytes_of.requires((s,)),
            forall|k: int|
                0 <= k < i ==> is_service_form(
                    service_bytes_of,
                    whole.schema.services[k],
                    #[trigger] byte_seqs(service_bytes@)[k],
                ),
            forms_are_owed(schema_bytes_of, service_bytes_of) ==> forall|k: int|
                0 <= k < i ==> encodable((#[trigger] byte_seqs(service_bytes@)[k]).len() + 32),
        decreases services@.len() - i,
    {
        assert(services@[i as int]@ == whole.schema.services[i as int]);
        let bytes = match service_bytes_of(&services[i]) {
            Ok(bytes) => bytes,
            Err(message) => {
                assert(service_form_fails(
                    service_bytes_of,
                    whole.schema.services[i as int],
                    message@,
                ));
                return Err(ParserError::Serialization(message));
            },
        };
        assert(is_service_form(service_bytes_of, whole.schema.services[i as int], bytes@));
        let ghost before = service_bytes@;
        service_bytes.push(bytes);
        proof {
            assert forall|k: int| 0 <= k < i + 1 implies is_service_form(
                service_bytes_of,
                whole.schema.services[k],
                #[trigger] byte_seqs(service_bytes@)[k],
            ) by {
                if k < i {
                    assert(byte_seqs(service_bytes@)[k] == byte_seqs(before)[k]);
                } else {
                    assert(byte_seqs(service_bytes@)[k] == bytes@);
                }
            }
            if forms_are_owed(schema_bytes_of, service_bytes_of) {
                assert forall|k: int| 0 <= k < i + 1 implies encodable(
                    (#[trigger] byte_seqs(service_bytes@)[k]).len() + 32,
                ) by {
                    if k < i {
                        assert(byte_seqs(service_bytes@)[k] == byte_seqs(before)[k]);
                    } else {
                        assert(byte_seqs(service_bytes@)[k] == bytes@);
                    }
                }
            }
        }
        i = i + 1;
    }
    std::mem::swap(&mut services, &mut out.schema.services);
    assert(out@ == whole) by {
        assert(out@.imports =~= whole.imports);
    }
    assert(are_forms(
        schema_bytes_of,
        service_bytes_of,
        whole.schema,
        schema_bytes@,
        byte_seqs(service_bytes@),
    ));
    match seal(&mut out.schema, &schema_bytes, &service_bytes) {
        Ok(()) => Ok(out),
        Err(error) => Err(error),
    }
}

} // verus!
