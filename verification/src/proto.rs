//! Typed protobuf views for playground forms (`SignedYamlArtifact`, `YamlSigilSignature`).
//!
//! The protobuf messages themselves are read and written by the YamlSigil
//! core; this module turns text fields into the bytes and values handed to it,
//! and the values it hands back into form fields.
use vstd::prelude::*;

use crate::codec::{
    base64_standard_encoding, decode_binary_field, decode_payload, decoded_binary_field,
    decoded_payload, encode_payload, encode_yaml_text, yaml_text_of,
};
use crate::ops::AlgorithmId;
use crate::text::{chars_of, owned, push_char, push_str, str_eq, string_from_chars, trim, trim_chars};

verus! {

/// The fields of a `YamlSigilSignature`, as text.
#[derive(Clone, Debug, PartialEq, Eq)]
pub struct SignatureFields {
    pub alg: String,
    pub keyid: String,
    pub signature_b64: String,
}

/// The fields of a `SignedYamlArtifact`, as text.
#[derive(Clone, Debug, PartialEq, Eq)]
pub struct ArtifactFields {
    pub payload: String,
    pub signature: SignatureFields,
}

pub open spec fn proto_name_of(a: AlgorithmId) -> Seq<char> {
    match a {
        AlgorithmId::Ed25519 => "ALGORITHM_ED25519_PUREEDDSA_RAW_RS64_CANONICAL"@,
        AlgorithmId::EcdsaP256Sha256 => "ALGORITHM_ECDSA_SECP256R1_SHA256_RAW_RS64"@,
    }
}

pub open spec fn algorithm_of_proto_name(name: Seq<char>) -> Option<AlgorithmId> {
    if name == "ALGORITHM_ED25519_PUREEDDSA_RAW_RS64_CANONICAL"@ {
        Some(AlgorithmId::Ed25519)
    } else if name == "ALGORITHM_ECDSA_SECP256R1_SHA256_RAW_RS64"@ {
        Some(AlgorithmId::EcdsaP256Sha256)
    } else {
        None
    }
}

/// The protobuf enum numbers of the algorithms (`AlgorithmId::from_i32` of the core).
pub open spec fn algorithm_of_wire(v: i32) -> Option<AlgorithmId> {
    if v == 1 {
        Some(AlgorithmId::Ed25519)
    } else if v == 2 {
        Some(AlgorithmId::EcdsaP256Sha256)
    } else {
        None
    }
}

pub fn algorithm_from_wire(v: i32) -> (r: Option<AlgorithmId>)
    ensures
        r == algorithm_of_wire(v),
{
    if v == 1 {
        Some(AlgorithmId::Ed25519)
    } else if v == 2 {
        Some(AlgorithmId::EcdsaP256Sha256)
    } else {
        None
    }
}

pub fn algorithm_proto_name(algorithm: AlgorithmId) -> (r: &'static str)
    ensures
        r@ == proto_name_of(algorithm),
{
    match algorithm {
        AlgorithmId::Ed25519 => "ALGORITHM_ED25519_PUREEDDSA_RAW_RS64_CANONICAL",
        AlgorithmId::EcdsaP256Sha256 => "ALGORITHM_ECDSA_SECP256R1_SHA256_RAW_RS64",
    }
}

pub fn algorithm_from_proto_name(name: &str) -> (r: Option<AlgorithmId>)
    ensures
        r == algorithm_of_proto_name(name@),
{
    if str_eq(name, "ALGORITHM_ED25519_PUREEDDSA_RAW_RS64_CANONICAL") {
        Some(AlgorithmId::Ed25519)
    } else if str_eq(name, "ALGORITHM_ECDSA_SECP256R1_SHA256_RAW_RS64") {
        Some(AlgorithmId::EcdsaP256Sha256)
    } else {
        None
    }
}

/// The decimal digits of `n`.
pub open spec fn decimal(n: nat) -> Seq<char>
    decreases n,
{
    if n < 10 {
        seq![((48 + n) as u8) as char]
    } else {
        decimal(n / 10).push(((48 + n % 10) as u8) as char)
    }
}

/// `n` in decimal, with a leading `-` when negative.
pub open spec fn signed_decimal(n: int) -> Seq<char> {
    if n < 0 {
        seq!['-'] + decimal((-n) as nat)
    } else {
        decimal(n as nat)
    }
}

pub fn push_decimal(out: &mut String, n: u64)
    ensures
        final(out)@ == old(out)@ + decimal(n as nat),
    decreases n,
{
    if n >= 10 {
        push_decimal(out, n / 10);
    }
    push_char(out, ((48 + n % 10) as u8) as char);
}

/// The algorithm's protobuf name, or `unknown (<number>)` for another number.
pub open spec fn alg_text_of(v: i32) -> Seq<char> {
    match algorithm_of_wire(v) {
        Some(a) => proto_name_of(a),
        None => "unknown ("@ + signed_decimal(v as int) + ")"@,
    }
}

pub open spec fn opt_str_view(o: Option<&str>) -> Option<Seq<char>> {
    match o {
        Some(s) => Some(s@),
        None => None,
    }
}

/// Signature fields from the decoded message: algorithm name, keyid (empty
/// when absent) and the signature in standard base64.
pub fn signature_fields(alg_wire: i32, keyid: Option<&str>, signature: &[u8]) -> (r: SignatureFields)
    ensures
        r.alg@ == alg_text_of(alg_wire),
        r.keyid@ == (match keyid {
            Some(k) => k@,
            None => Seq::<char>::empty(),
        }),
        r.signature_b64@ == base64_standard_encoding(signature@),
        algorithm_of_proto_name(r.alg@) == algorithm_of_wire(alg_wire),
        decoded_binary_field(r.signature_b64@) == Ok::<
            Seq<u8>,
            Seq<char>,
        >(signature@),
{
    let alg = match algorithm_from_wire(alg_wire) {
        Some(a) => owned(algorithm_proto_name(a)),
        None => {
            let mut s = owned("unknown (");
            let wide = alg_wire as i64;
            if wide < 0 {
                push_char(&mut s, '-');
                push_decimal(&mut s, (-wide) as u64);
            } else {
                push_decimal(&mut s, wide as u64);
            }
            push_str(&mut s, ")");
            s
        },
    };
    let keyid = match keyid {
        Some(k) => owned(k),
        None => String::new(),
    };
    let signature_b64 = encode_payload(signature, "protobuf");
    proof {
        law_algorithm_text_reads_back(alg_wire);
        reveal_strlit("protobuf");
        reveal_strlit("yaml");
        assert("protobuf"@.len() != "yaml"@.len());
        assert(alg@ == alg_text_of(alg_wire));
    }
    SignatureFields { alg, keyid, signature_b64 }
}

/// The algorithm text of a wire number names the same algorithm, and an
/// unknown number names none.
pub proof fn law_algorithm_text_reads_back(v: i32)
    ensures
        algorithm_of_proto_name(alg_text_of(v)) == algorithm_of_wire(v),
{
    reveal_strlit("ALGORITHM_ED25519_PUREEDDSA_RAW_RS64_CANONICAL");
    reveal_strlit("ALGORITHM_ECDSA_SECP256R1_SHA256_RAW_RS64");
    reveal_strlit("unknown (");
    reveal_strlit(")");
    if algorithm_of_wire(v) is None {
        let t = alg_text_of(v);
        assert(t[0] == 'u');
        assert("ALGORITHM_ED25519_PUREEDDSA_RAW_RS64_CANONICAL"@[0] == 'A');
        assert("ALGORITHM_ECDSA_SECP256R1_SHA256_RAW_RS64"@[0] == 'A');
    } else {
        assert("ALGORITHM_ED25519_PUREEDDSA_RAW_RS64_CANONICAL"@.len() != "ALGORITHM_ECDSA_SECP256R1_SHA256_RAW_RS64"@.len());
    }
}

/// Artifact fields from the decoded message: the payload as YAML text and the
/// signature fields.
pub fn artifact_fields(payload: &[u8], alg_wire: i32, keyid: Option<&str>, signature: &[u8]) -> (r: ArtifactFields)
    ensures
        r.payload@ == yaml_text_of(payload@),
        r.signature.alg@ == alg_text_of(alg_wire),
        r.signature.keyid@ == (match keyid {
            Some(k) => k@,
            None => Seq::<char>::empty(),
        }),
        r.signature.signature_b64@ == base64_standard_encoding(signature@),
{
    ArtifactFields { payload: encode_yaml_text(payload), signature: signature_fields(alg_wire, keyid, signature) }
}

/// The bytes of a protobuf text field (standard base64); empty is an error.
pub fn protobuf_bytes(input: &str) -> (r: Result<Vec<u8>, String>)
    ensures
        match r {
            Ok(b) => decoded_payload(input@, "protobuf"@) == Ok::<Seq<u8>, Seq<char>>(b@) && b@.len() > 0,
            Err(e) => match decoded_payload(input@, "protobuf"@) {
                Ok(b) => b.len() == 0 && e@ == "empty protobuf"@,
                Err(m) => e@ == m,
            },
        },
{
    let bytes = decode_payload(input, "protobuf")?;
    if bytes.len() == 0 {
        return Err(owned("empty protobuf"));
    }
    Ok(bytes)
}

/// What a `YamlSigilSignature` is built from.
pub struct CarrierInput {
    pub algorithm: AlgorithmId,
    pub keyid: Option<String>,
    pub signature: Vec<u8>,
}

/// Reads the carrier fields: the algorithm by protobuf name, the signature as
/// standard base64, and the keyid trimmed (blank is none).
pub fn carrier_request(alg_name: &str, keyid: &str, signature_b64: &str) -> (r: Result<CarrierInput, String>)
    ensures
        match r {
            Ok(input) => {
                &&& algorithm_of_proto_name(alg_name@) == Some(input.algorithm)
                &&& decoded_binary_field(signature_b64@) == Ok::<Seq<u8>, Seq<char>>(input.signature@)
                &&& match input.keyid {
                    Some(k) => k@ == trim(keyid@) && k@.len() > 0,
                    None => trim(keyid@).len() == 0,
                }
            },
            Err(e) => if algorithm_of_proto_name(alg_name@) is None {
                e@ == "invalid algorithm"@
            } else {
                decoded_binary_field(signature_b64@) == Err::<Seq<u8>, Seq<char>>(e@)
            },
        },
{
    let algorithm = match algorithm_from_proto_name(alg_name) {
        Some(a) => a,
        None => return Err(owned("invalid algorithm")),
    };
    let signature = decode_binary_field(signature_b64)?;
    let chars = chars_of(keyid);
    let trimmed = trim_chars(&chars);
    let keyid = if trimmed.len() == 0 {
        None
    } else {
        Some(string_from_chars(trimmed.as_slice()))
    };
    Ok(CarrierInput { algorithm, keyid, signature })
}

} // verus!
