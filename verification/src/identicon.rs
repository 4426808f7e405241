//! Polkadot 19-circle identicons from `plot_icon` (SVG / WASM-safe).
use vstd::prelude::*;
use vstd::utf8::*;

use crate::codec::{decode_key_bytes, decoded_key_bytes};

verus! {

/// The SVG text of the identicon that `plot_icon::generate_svg` draws for `seed`.
pub uninterp spec fn identicon_svg(seed: Seq<u8>) -> Seq<char>;

/// `plot_icon::generate_svg(seed).to_string()`; the SVG is named.
#[verifier::external_body]
fn generate_svg(seed: &[u8]) -> (svg: String)
    ensures
        svg@ == identicon_svg(seed@),
{
    plot_icon::generate_svg(seed).to_string()
}

/// The identicon seed: the algorithm name's bytes, a zero byte, the key bytes.
pub open spec fn identicon_seed(algorithm: Seq<char>, key: Seq<u8>) -> Seq<u8> {
    encode_utf8(algorithm) + seq![0u8] + key
}

/// The identicon of a public key given as hex or base64; none for text that
/// does not decode or decodes to no bytes.
pub open spec fn identicon_for(algorithm: Seq<char>, public_key: Seq<char>) -> Option<Seq<char>> {
    match decoded_key_bytes(public_key) {
        Ok(key) => if key.len() == 0 {
            None
        } else {
            Some(identicon_svg(identicon_seed(algorithm, key)))
        },
        Err(_) => None,
    }
}

pub fn svg_for_key(algorithm: &str, public_key: &str) -> (r: Option<String>)
    ensures
        match r {
            Some(svg) => identicon_for(algorithm@, public_key@) == Some(svg@),
            None => identicon_for(algorithm@, public_key@) is None,
        },
{
    let bytes = match decode_key_bytes(public_key) {
        Ok(b) => b,
        Err(_) => return None,
    };
    if bytes.len() == 0 {
        return None;
    }
    let alg = algorithm.as_bytes();
    let mut seed: Vec<u8> = Vec::new();
    let mut k: usize = 0;
    while k < alg.len()
        invariant
            k <= alg.len(),
            seed@ == alg@.take(k as int),
        decreases alg.len() - k,
    {
        seed.push(alg[k]);
        assert(alg@.take(k + 1) == alg@.take(k as int).push(alg@[k as int]));
        k = k + 1;
    }
    assert(alg@.take(alg.len() as int) == alg@);
    seed.push(0u8);
    let ghost prefix = seed@;
    let mut j: usize = 0;
    while j < bytes.len()
        invariant
            j <= bytes.len(),
            seed@ == prefix + bytes@.take(j as int),
        decreases bytes.len() - j,
    {
        seed.push(bytes[j]);
        assert(bytes@.take(j + 1) == bytes@.take(j as int).push(bytes@[j as int]));
        j = j + 1;
    }
    assert(bytes@.take(bytes.len() as int) == bytes@);
    assert(seed@ == identicon_seed(algorithm@, bytes@));
    Some(generate_svg(seed.as_slice()))
}

} // verus!
