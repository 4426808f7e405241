use yaml_sigil_web::codec::to_hex;
use yaml_sigil_web::keys::{canonical_key_text, generate_keypair};
use yaml_sigil_web::ops::{sign_request, ED25519_NAME, P256_NAME};

fn p256_key_accepted(scalar: &[u8]) -> bool {
    sign_request("a: 1\n", P256_NAME, &to_hex(scalar), None, true, "yaml").is_ok()
}

#[test]
fn mint_ephemeral_ed25519_pair() {
    let pair = generate_keypair(ED25519_NAME).expect("ed25519");
    assert_eq!(pair.private_hex.len(), 64);
    assert_eq!(pair.public_hex.len(), 64);
    let other = generate_keypair(ED25519_NAME).expect("ed25519");
    assert_ne!(pair.private_hex, other.private_hex);
}

#[test]
fn mint_ephemeral_p256_pair() {
    let pair = generate_keypair(P256_NAME).expect("p256");
    assert_eq!(pair.private_hex.len(), 64);
    assert!(pair.public_hex.len() == 66 || pair.public_hex.len() == 130);
    assert!(generate_keypair("not-an-alg").is_err());
}

#[test]
fn p256_public_keys_are_uncompressed_points() {
    let pair = generate_keypair(P256_NAME).expect("p256");
    assert_eq!(pair.public_hex.len(), 130);
    assert!(pair.public_hex.starts_with("04"));
    let ed = generate_keypair(ED25519_NAME).expect("ed25519");
    assert_eq!(ed.public_hex.len(), 64);
}

#[test]
fn p256_scalars_must_be_in_range() {
    let pair = generate_keypair(P256_NAME).expect("p256");
    let accepted = sign_request("a: 1\n", P256_NAME, &pair.private_hex, None, true, "yaml");
    assert!(accepted.is_ok());
    assert!(!p256_key_accepted(&[0u8; 32]));
    assert!(!p256_key_accepted(&[0xffu8; 32]));
    assert!(!p256_key_accepted(&[1u8; 23]));
    assert!(p256_key_accepted(&[1u8; 24]));
    assert!(!p256_key_accepted(&[1u8; 33]));
}

#[test]
fn canonical_key_text_names_the_problem() {
    assert_eq!(canonical_key_text(ED25519_NAME, Some(vec![0xab, 0x01])).as_deref(), Ok("ab01"));
    assert_eq!(
        canonical_key_text(P256_NAME, None).err().as_deref(),
        Some("public key is not a valid ECDSA_SECP256R1_SHA256_RAW_RS64 key")
    );
    assert_eq!(
        canonical_key_text("ed25519", Some(vec![1])).err().as_deref(),
        Some("unsupported algorithm")
    );
}

#[test]
fn generated_keys_are_lowercase_hex() {
    let pair = generate_keypair(ED25519_NAME).expect("ed25519");
    assert!(pair.public_hex.chars().all(|c| c.is_ascii_hexdigit() && !c.is_ascii_uppercase()));
    assert_eq!(generate_keypair("ed25519").err().as_deref(), Some("unsupported algorithm"));
}
