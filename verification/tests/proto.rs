use yaml_sigil_web::ops::AlgorithmId;
use yaml_sigil_web::proto::{
    algorithm_from_proto_name, algorithm_from_wire, algorithm_proto_name, artifact_fields,
    carrier_request, protobuf_bytes, push_decimal, signature_fields,
};

#[test]
fn garbage_protobuf_is_an_error() {
    assert!(protobuf_bytes("$$$$").is_err());
    assert!(protobuf_bytes("").is_err());
    assert!(carrier_request("nope", "", "").is_err());
}

#[test]
fn protobuf_field_errors_are_exact() {
    assert_eq!(protobuf_bytes("").err().as_deref(), Some("empty protobuf"));
    assert_eq!(protobuf_bytes("   ").err().as_deref(), Some("empty protobuf"));
    assert_eq!(protobuf_bytes("$$$$").err().as_deref(), Some("invalid base64"));
    assert_eq!(protobuf_bytes("Cgs=").unwrap(), vec![0x0a, 0x0b]);
    assert_eq!(protobuf_bytes("abcd").unwrap(), vec![0x69, 0xb7, 0x1d]);
    assert_eq!(protobuf_bytes("AQID").unwrap(), vec![1, 2, 3]);
    assert_eq!(carrier_request("nope", "", "").err().as_deref(), Some("invalid algorithm"));
}

#[test]
fn carrier_request_trims_keyid() {
    let input = carrier_request("ALGORITHM_ECDSA_SECP256R1_SHA256_RAW_RS64", "  demo ", "AQID").expect("input");
    assert_eq!(input.algorithm, AlgorithmId::EcdsaP256Sha256);
    assert_eq!(input.keyid.as_deref(), Some("demo"));
    assert_eq!(input.signature, vec![1, 2, 3]);
    let input = carrier_request("ALGORITHM_ED25519_PUREEDDSA_RAW_RS64_CANONICAL", "   ", "").expect("input");
    assert_eq!(input.algorithm, AlgorithmId::Ed25519);
    assert_eq!(input.keyid, None);
    assert!(input.signature.is_empty());
}

#[test]
fn signature_fields_name_the_algorithm() {
    let fields = signature_fields(1, Some("demo"), &[1, 2, 3]);
    assert_eq!(fields.alg, "ALGORITHM_ED25519_PUREEDDSA_RAW_RS64_CANONICAL");
    assert_eq!(fields.keyid, "demo");
    assert_eq!(fields.signature_b64, "AQID");
    let unknown = signature_fields(-17, None, &[]);
    assert_eq!(unknown.alg, "unknown (-17)");
    assert_eq!(unknown.keyid, "");
    assert_eq!(unknown.signature_b64, "");
    assert_eq!(signature_fields(0, None, &[]).alg, "unknown (0)");
    assert_eq!(signature_fields(i32::MIN, None, &[]).alg, "unknown (-2147483648)");
    let artifact = artifact_fields(b"a: 1\n", 2, None, &[0xff]);
    assert_eq!(artifact.payload, "a: 1\n");
    assert_eq!(artifact.signature.alg, "ALGORITHM_ECDSA_SECP256R1_SHA256_RAW_RS64");
    assert_eq!(artifact.signature.signature_b64, "/w==");
}

#[test]
fn algorithm_names_round_trip() {
    for alg in [AlgorithmId::Ed25519, AlgorithmId::EcdsaP256Sha256] {
        assert_eq!(algorithm_from_proto_name(algorithm_proto_name(alg)), Some(alg));
    }
    assert_eq!(algorithm_from_wire(1), Some(AlgorithmId::Ed25519));
    assert_eq!(algorithm_from_wire(2), Some(AlgorithmId::EcdsaP256Sha256));
    assert_eq!(algorithm_from_wire(3), None);
    let mut out = String::from("n=");
    push_decimal(&mut out, 1_234_567_890_123);
    assert_eq!(out, "n=1234567890123");
}
