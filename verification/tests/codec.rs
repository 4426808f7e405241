use base64::Engine;
use yaml_sigil_web::codec::{
    decode_binary_field, decode_hex, decode_key_bytes, decode_payload, decode_yaml_text,
    encode_payload, encode_yaml_text, to_hex,
};

#[test]
fn hex_round_trip() {
    let bytes = [0x0a, 0xb1, 0xff];
    assert_eq!(to_hex(&bytes), "0ab1ff");
    assert_eq!(decode_hex("0x0a:b1 ff").unwrap(), bytes);
    assert_eq!(decode_hex("0AB1FF").unwrap(), bytes);
}

#[test]
fn key_bytes_accept_hex_and_base64() {
    let bytes = vec![1, 2, 3, 4];
    let hex = to_hex(&bytes);
    assert_eq!(decode_key_bytes(&hex).unwrap(), bytes);
    let b64 = base64::engine::general_purpose::STANDARD.encode(&bytes);
    assert_eq!(decode_key_bytes(&b64).unwrap(), bytes);
    assert!(decode_key_bytes("   ").is_err());
}

#[test]
fn payload_yaml_is_utf8_protobuf_is_binary() {
    assert_eq!(decode_payload("a: 1\n", "yaml").unwrap(), b"a: 1\n");
    assert_eq!(decode_yaml_text("a: 1\n"), b"a: 1\n");
    let encoded = encode_payload(&[0xff, 0x00], "protobuf");
    assert_eq!(decode_payload(&encoded, "protobuf").unwrap(), [0xff, 0x00]);
    assert!(decode_payload("x", "cbor").is_err());
}

#[test]
fn empty_protobuf_field_is_empty_bytes() {
    assert!(decode_binary_field("").unwrap().is_empty());
}

#[test]
fn hex_of_every_byte_reads_back() {
    let bytes: Vec<u8> = (0..=255).collect();
    let hex = to_hex(&bytes);
    assert_eq!(hex.len(), 512);
    assert_eq!(&hex[..6], "000102");
    assert_eq!(decode_hex(&hex).unwrap(), bytes);
    assert_eq!(decode_key_bytes(&hex).unwrap(), bytes);
}

#[test]
fn hex_rejects_odd_empty_and_non_hex() {
    assert!(decode_hex("").is_err());
    assert!(decode_hex("0x").is_err());
    assert!(decode_hex("abc").is_err());
    assert!(decode_hex("zz").is_err());
    assert_eq!(decode_hex("  0Xde:ad\tBE EF ").unwrap(), [0xde, 0xad, 0xbe, 0xef]);
}

#[test]
fn key_errors_name_the_problem() {
    assert_eq!(decode_key_bytes("").unwrap_err(), "empty key material");
    assert_eq!(
        decode_key_bytes("$$$").unwrap_err(),
        "key must be hex (optional 0x) or base64"
    );
    assert_eq!(decode_binary_field("$$$").unwrap_err(), "invalid base64");
    assert_eq!(
        decode_payload("x", "YAML").unwrap_err(),
        "form must be yaml or protobuf"
    );
}

#[test]
fn base64_variants_are_accepted() {
    // URL-safe alphabet without padding.
    assert_eq!(decode_key_bytes("_-8").unwrap(), [0xff, 0xef]);
    assert_eq!(decode_binary_field("_-8").unwrap(), [0xff, 0xef]);
    // Standard alphabet with padding and inner whitespace, and without padding.
    assert_eq!(decode_binary_field("/w A=").unwrap(), [0xff, 0x00]);
    assert_eq!(decode_binary_field("/wA").unwrap(), [0xff, 0x00]);
    // Protobuf fields are not read as hex.
    assert_eq!(decode_binary_field("abcd").unwrap(), [0x69, 0xb7, 0x1d]);
}

#[test]
fn yaml_text_falls_back_to_base64() {
    assert_eq!(encode_yaml_text("claim: é\n".as_bytes()), "claim: é\n");
    assert_eq!(encode_yaml_text(&[0xff, 0x00]), "/wA=");
    assert_eq!(encode_payload(b"a: 1\n", "yaml"), "a: 1\n");
    assert_eq!(encode_payload(b"a: 1\n", "protobuf"), "YTogMQo=");
}

#[test]
fn protobuf_text_round_trips() {
    let bytes = [0xff, 0x00, 0x10, 0x7f];
    let text = encode_payload(&bytes, "protobuf");
    assert_eq!(decode_payload(&text, "protobuf").unwrap(), bytes);
    // Base64 made only of hex digits is still base64.
    let zeros = encode_payload(&[0, 0, 0], "protobuf");
    assert_eq!(zeros, "AAAA");
    assert_eq!(decode_payload(&zeros, "protobuf").unwrap(), vec![0, 0, 0]);
    let abcd = encode_payload(&[0x69, 0xb7, 0x1d], "protobuf");
    assert_eq!(abcd, "abcd");
    assert_eq!(decode_payload(&abcd, "protobuf").unwrap(), vec![0x69, 0xb7, 0x1d]);
    assert_eq!(encode_payload(&[], "protobuf"), "");
    assert!(decode_payload("", "protobuf").unwrap().is_empty());
}

#[test]
fn uppercase_prefixed_hex_reads_back() {
    let bytes = [0x0a, 0xb1, 0xff, 0x00];
    let upper = format!("0X{}", to_hex(&bytes).to_ascii_uppercase());
    assert_eq!(decode_hex(&upper).unwrap(), bytes);
}
