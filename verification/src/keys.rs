//! Session-only ephemeral key generation.
use vstd::prelude::*;

use ed25519_dalek::SigningKey as Ed25519SigningKey;
use p256::ecdsa::SigningKey as P256SigningKey;
use rand::rngs::OsRng;
use zeroize::Zeroize;

use crate::codec::{hex_digit_char, hex_lower, lemma_hex_lower_shape, to_hex};
use crate::ops::{ED25519_NAME, P256_NAME};
use crate::text::{owned, push_str, str_eq};

verus! {

/// A key pair written as lowercase hex.
pub struct KeyPairHex {
    pub private_hex: String,
    pub public_hex: String,
}

/// The Ed25519 public key (`VerifyingKey::to_bytes`) of a 32-byte seed.
pub uninterp spec fn ed25519_public_from_seed(seed: Seq<u8>) -> Seq<u8>;

/// The uncompressed SEC1 encoding (`0x04 || X || Y`) of the P-256 public
/// point of a secret scalar.
pub uninterp spec fn p256_uncompressed_public(scalar: Seq<u8>) -> Seq<u8>;

/// The order of the P-256 group.
pub open spec fn p256_order() -> nat {
    0xFFFFFFFF00000000FFFFFFFFFFFFFFFFBCE6FAADA7179E84F3B9CAC2FC632551nat
}

/// The unsigned big-endian integer that `b` spells.
pub open spec fn big_endian_value(b: Seq<u8>) -> nat
    decreases b.len(),
{
    if b.len() == 0 {
        0
    } else {
        big_endian_value(b.drop_last()) * 256 + b.last() as nat
    }
}

/// What `p256::ecdsa::SigningKey::from_slice` accepts: 24 to 32 big-endian
/// bytes (shorter ones are zero padded) of a scalar in `1..n`.
pub open spec fn p256_secret_accepted(b: Seq<u8>) -> bool {
    &&& 24 <= b.len() <= 32
    &&& 0 < big_endian_value(b) < p256_order()
}

/// `SigningKey::generate(&mut OsRng).to_bytes()` of `ed25519_dalek`: a fresh
/// random 32-byte seed.  Nothing is stated of its value.
#[verifier::external_body]
fn ed25519_generate_seed() -> (seed: Vec<u8>)
    ensures
        seed.len() == 32,
{
    Ed25519SigningKey::generate(&mut OsRng).to_bytes().to_vec()
}

/// `SigningKey::from_bytes(seed).verifying_key().to_bytes()` of
/// `ed25519_dalek`; the result is named.
#[verifier::external_body]
fn ed25519_public_key(seed: &[u8]) -> (pk: Vec<u8>)
    requires
        seed.len() == 32,
    ensures
        pk@ == ed25519_public_from_seed(seed@),
        pk.len() == 32,
{
    let mut bytes = [0u8; 32];
    bytes.copy_from_slice(seed);
    let pk = Ed25519SigningKey::from_bytes(&bytes).verifying_key().to_bytes().to_vec();
    bytes.zeroize();
    pk
}

/// `SigningKey::random(&mut OsRng).to_bytes()` of `p256::ecdsa`: a fresh random
/// secret scalar, 32 big-endian bytes of a value in `1..n`.
#[verifier::external_body]
fn p256_generate_scalar() -> (scalar: Vec<u8>)
    ensures
        scalar.len() == 32,
        p256_secret_accepted(scalar@),
{
    P256SigningKey::random(&mut OsRng).to_bytes().to_vec()
}

/// `SigningKey::from_slice(scalar)` of `p256::ecdsa`, then
/// `verifying_key().to_encoded_point(false)`: the uncompressed public point,
/// 65 bytes starting with the tag `0x04`; the value is named.
#[verifier::external_body]
fn p256_public_key(scalar: &[u8]) -> (pk: Vec<u8>)
    requires
        p256_secret_accepted(scalar@),
    ensures
        pk@ == p256_uncompressed_public(scalar@),
        pk.len() == 65,
        pk@[0] == 4u8,
{
    let key = P256SigningKey::from_slice(scalar).unwrap();
    key.verifying_key().to_encoded_point(false).as_bytes().to_vec()
}

/// Whether `p256::ecdsa::SigningKey::from_slice` accepts `bytes`.
#[verifier::external_body]
pub(crate) fn p256_secret_key_accepted(bytes: &[u8]) -> (r: bool)
    ensures
        r == p256_secret_accepted(bytes@),
{
    P256SigningKey::from_slice(bytes).is_ok()
}

/// `Zeroize::zeroize` on a `Vec<u8>`: the bytes are overwritten with zeros and
/// the vector is cleared.
#[verifier::external_body]
fn wipe(v: &mut Vec<u8>)
    ensures
        final(v)@.len() == 0,
{
    v.zeroize();
}

/// `private` and `public` are a key pair of `algorithm`, written as lowercase
/// hex: a 32-byte Ed25519 seed and its 32-byte public key (64 hex digits
/// each), or a 32-byte P-256 scalar (64 hex digits) and its 65-byte
/// uncompressed point `04 || X || Y` (130 hex digits).
pub open spec fn is_hex_key_pair(algorithm: Seq<char>, private: Seq<char>, public: Seq<char>) -> bool {
    ||| (algorithm == ED25519_NAME@ && private.len() == 64 && public.len() == 64 && exists|seed: Seq<u8>|
        #![trigger hex_lower(seed)]
        seed.len() == 32 && private == hex_lower(seed) && public == hex_lower(
            ed25519_public_from_seed(seed),
        ))
    ||| (algorithm == P256_NAME@ && private.len() == 64 && public.len() == 130 && public[0] == '0'
        && public[1] == '4' && exists|scalar: Seq<u8>|
        #![trigger hex_lower(scalar)]
        scalar.len() == 32 && p256_secret_accepted(scalar) && private == hex_lower(scalar)
            && public == hex_lower(p256_uncompressed_public(scalar)))
}

/// A supported algorithm name.
pub open spec fn is_supported_algorithm(algorithm: Seq<char>) -> bool {
    algorithm == ED25519_NAME@ || algorithm == P256_NAME@
}

/// A fresh random key pair for `algorithm`.
pub fn generate_keypair(algorithm: &str) -> (r: Result<KeyPairHex, String>)
    ensures
        match r {
            Ok(pair) => is_hex_key_pair(algorithm@, pair.private_hex@, pair.public_hex@),
            Err(e) => !is_supported_algorithm(algorithm@) && e@ == "unsupported algorithm"@,
        },
        r is Ok <==> is_supported_algorithm(algorithm@),
{
    if str_eq(algorithm, ED25519_NAME) {
        let mut private = ed25519_generate_seed();
        let public = ed25519_public_key(&private);
        let pair = KeyPairHex { private_hex: to_hex(&private), public_hex: to_hex(&public) };
        let ghost seed = private@;
        assert(pair.private_hex@ == hex_lower(seed));
        proof {
            lemma_hex_lower_shape(private@);
            lemma_hex_lower_shape(public@);
        }
        wipe(&mut private);
        Ok(pair)
    } else if str_eq(algorithm, P256_NAME) {
        let mut private = p256_generate_scalar();
        let public = p256_public_key(&private);
        let pair = KeyPairHex { private_hex: to_hex(&private), public_hex: to_hex(&public) };
        let ghost scalar = private@;
        assert(pair.private_hex@ == hex_lower(scalar));
        proof {
            lemma_hex_lower_shape(private@);
            lemma_hex_lower_shape(public@);
            let z: int = 0;
            assert(hex_lower(public@)[2 * z] == hex_digit_char(public@[z] as int / 16));
            assert(hex_lower(public@)[2 * z + 1] == hex_digit_char(public@[z] as int % 16));
        }
        wipe(&mut private);
        Ok(pair)
    } else {
        Err(owned("unsupported algorithm"))
    }
}

/// `public key is not a valid <algorithm> key`.
pub open spec fn invalid_key_message(algorithm: Seq<char>) -> Seq<char> {
    "public key is not a valid "@ + algorithm + " key"@
}

/// The canonical text of a public key of `algorithm`: the bytes of the key
/// as the algorithm's resolver re-encodes it (raw for Ed25519, uncompressed
/// for P-256) in lowercase hex; `canonical` is `None` when the resolver refused
/// the key.
pub fn canonical_key_text(algorithm: &str, canonical: Option<Vec<u8>>) -> (r: Result<String, String>)
    ensures
        match r {
            Ok(t) => is_supported_algorithm(algorithm@) && (canonical matches Some(b) && t@ == hex_lower(
                b@,
            )),
            Err(e) => if !is_supported_algorithm(algorithm@) {
                e@ == "unsupported algorithm"@
            } else {
                canonical is None && e@ == invalid_key_message(algorithm@)
            },
        },
{
    if !(str_eq(algorithm, ED25519_NAME) || str_eq(algorithm, P256_NAME)) {
        return Err(owned("unsupported algorithm"));
    }
    match canonical {
        Some(bytes) => Ok(to_hex(bytes.as_slice())),
        None => {
            let mut e = owned("public key is not a valid ");
            push_str(&mut e, algorithm);
            push_str(&mut e, " key");
            Err(e)
        },
    }
}

} // verus!
