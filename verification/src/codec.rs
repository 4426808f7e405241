//! Hex and base64 helpers for playground text fields.
use vstd::prelude::*;
use vstd::utf8::*;

use base64::Engine;

use crate::text::{
    bytes_to_vec, chars_of, is_unicode_ws, is_whitespace, owned, push_char, str_eq, trim,
    trim_chars, trim_end, trim_start,
};

verus! {

// ---------------------------------------------------------------------------
// The base64 crate.
// ---------------------------------------------------------------------------

/// The `base64::engine::general_purpose` configurations that the codec tries.
#[derive(Clone, Copy, Debug, PartialEq, Eq, Structural)]
pub enum Base64Engine {
    /// `STANDARD`: standard alphabet, padded.
    Standard,
    /// `URL_SAFE`: URL-safe alphabet, padded.
    UrlSafe,
    /// `URL_SAFE_NO_PAD`: URL-safe alphabet, unpadded.
    UrlSafeNoPad,
    /// `STANDARD_NO_PAD`: standard alphabet, unpadded.
    StandardNoPad,
}

/// What `base64::Engine::decode` returns for the UTF-8 bytes of `text` under
/// `engine` (`None` for a decode error).
pub uninterp spec fn base64_decoding(engine: Base64Engine, text: Seq<char>) -> Option<Seq<u8>>;

/// What `base64::Engine::encode` returns for `bytes` under `STANDARD`.
pub uninterp spec fn base64_standard_encoding(bytes: Seq<u8>) -> Seq<char>;

/// Calls `base64::Engine::decode` of the selected `general_purpose` engine on
/// the UTF-8 bytes of `text`.  The contract names the result and says
/// nothing else of it.
#[verifier::external_body]
fn base64_decode(engine: Base64Engine, text: &Vec<char>) -> (r: Option<Vec<u8>>)
    ensures
        match r {
            Some(b) => base64_decoding(engine, text@) == Some(b@),
            None => base64_decoding(engine, text@) is None,
        },
{
    let text: String = text.iter().collect();
    let decoded = match engine {
        Base64Engine::Standard => base64::engine::general_purpose::STANDARD.decode(text.as_bytes()),
        Base64Engine::UrlSafe => base64::engine::general_purpose::URL_SAFE.decode(text.as_bytes()),
        Base64Engine::UrlSafeNoPad => base64::engine::general_purpose::URL_SAFE_NO_PAD.decode(
            text.as_bytes(),
        ),
        Base64Engine::StandardNoPad => base64::engine::general_purpose::STANDARD_NO_PAD.decode(
            text.as_bytes(),
        ),
    };
    match decoded {
        Ok(bytes) => Some(bytes),
        Err(_) => None,
    }
}

/// The characters of the standard base64 alphabet and its padding.
pub open spec fn is_standard_base64_char(c: char) -> bool {
    ('A' <= c && c <= 'Z') || ('a' <= c && c <= 'z') || ('0' <= c && c <= '9') || c == '+' || c == '/'
        || c == '='
}

/// Calls `base64::Engine::encode` of `general_purpose::STANDARD`; the result
/// is named.  What the crate's source shows besides: the output is padded to
/// four characters per started group of three bytes, uses only the standard
/// alphabet and `=`, and the same engine decodes it back to the input.
#[verifier::external_body]
fn base64_encode_standard(bytes: &[u8]) -> (r: String)
    ensures
        r@ == base64_standard_encoding(bytes@),
        r@.len() == 4 * ((bytes@.len() + 2) / 3),
        forall|k: int| 0 <= k < r@.len() ==> is_standard_base64_char(#[trigger] r@[k]),
        base64_decoding(Base64Engine::Standard, r@) == Some(bytes@),
{
    base64::engine::general_purpose::STANDARD.encode(bytes)
}

/// `std::str::from_utf8`: the text of `bytes` when they are valid UTF-8.
#[verifier::external_body]
pub(crate) fn utf8_text(bytes: &[u8]) -> (r: Option<String>)
    ensures
        match r {
            Some(s) => valid_utf8(bytes@) && s@ == decode_utf8(bytes@),
            None => !valid_utf8(bytes@),
        },
{
    match std::str::from_utf8(bytes) {
        Ok(text) => Some(text.to_string()),
        Err(_) => None,
    }
}

// ---------------------------------------------------------------------------
// Hex.
// ---------------------------------------------------------------------------

/// The lowercase hex digit of `n` (`0 <= n < 16`).
pub open spec fn hex_digit_char(n: int) -> char {
    if n < 10 {
        ((48 + n) as u8) as char
    } else {
        ((87 + n) as u8) as char
    }
}

/// Lowercase hex, two digits per byte.
pub open spec fn hex_lower(b: Seq<u8>) -> Seq<char>
    decreases b.len(),
{
    if b.len() == 0 {
        seq![]
    } else {
        hex_lower(b.drop_last()) + seq![
            hex_digit_char(b.last() as int / 16),
            hex_digit_char(b.last() as int % 16),
        ]
    }
}

pub open spec fn is_hex_digit(c: char) -> bool {
    ('0' <= c && c <= '9') || ('a' <= c && c <= 'f') || ('A' <= c && c <= 'F')
}

pub open spec fn hex_value(c: char) -> int {
    if '0' <= c && c <= '9' {
        c as int - 48
    } else if 'a' <= c && c <= 'f' {
        c as int - 87
    } else {
        c as int - 55
    }
}

/// `t` without a leading `0x` or `0X`.
pub open spec fn strip_hex_prefix(t: Seq<char>) -> Seq<char> {
    if t.len() >= 2 && t[0] == '0' && (t[1] == 'x' || t[1] == 'X') {
        t.skip(2)
    } else {
        t
    }
}

/// Whitespace and `:` may separate hex digits.
pub open spec fn is_hex_separator(c: char) -> bool {
    is_unicode_ws(c) || c == ':'
}

/// `t` with every hex separator removed.
pub open spec fn without_separators(t: Seq<char>) -> Seq<char>
    decreases t.len(),
{
    if t.len() == 0 {
        seq![]
    } else if is_hex_separator(t.last()) {
        without_separators(t.drop_last())
    } else {
        without_separators(t.drop_last()).push(t.last())
    }
}

/// `t` with every whitespace character removed.
pub open spec fn without_whitespace(t: Seq<char>) -> Seq<char>
    decreases t.len(),
{
    if t.len() == 0 {
        seq![]
    } else if is_unicode_ws(t.last()) {
        without_whitespace(t.drop_last())
    } else {
        without_whitespace(t.drop_last()).push(t.last())
    }
}

/// The bytes spelled by pairs of hex digits.
pub open spec fn hex_pairs(c: Seq<char>) -> Seq<u8> {
    Seq::new((c.len() / 2) as nat, |i: int| (hex_value(c[2 * i]) * 16 + hex_value(c[2 * i + 1])) as u8)
}

/// Hex decoding: an optional `0x`, then an even, non-zero number of hex
/// digits, which whitespace and `:` may separate.
pub open spec fn decoded_hex(input: Seq<char>) -> Option<Seq<u8>> {
    let c = without_separators(strip_hex_prefix(trim(input)));
    if c.len() == 0 || c.len() % 2 != 0 || !(forall|k: int| 0 <= k < c.len() ==> is_hex_digit(c[k])) {
        None
    } else {
        Some(hex_pairs(c))
    }
}

/// Base64 decoding, whitespace ignored, trying `STANDARD`, `URL_SAFE`,
/// `URL_SAFE_NO_PAD` and `STANDARD_NO_PAD` in turn.
pub open spec fn decoded_base64(input: Seq<char>) -> Option<Seq<u8>> {
    let c = without_whitespace(input);
    match base64_decoding(Base64Engine::Standard, c) {
        Some(b) => Some(b),
        None => match base64_decoding(Base64Engine::UrlSafe, c) {
            Some(b) => Some(b),
            None => match base64_decoding(Base64Engine::UrlSafeNoPad, c) {
                Some(b) => Some(b),
                None => base64_decoding(Base64Engine::StandardNoPad, c),
            },
        },
    }
}

/// Key material: hex (optional `0x`) or else base64, surrounding whitespace ignored.
pub open spec fn decoded_key_bytes(input: Seq<char>) -> Result<Seq<u8>, Seq<char>> {
    let t = trim(input);
    if t.len() == 0 {
        Err("empty key material"@)
    } else {
        match decoded_hex(t) {
            Some(b) => Ok(b),
            None => match decoded_base64(t) {
                Some(b) => Ok(b),
                None => Err("key must be hex (optional 0x) or base64"@),
            },
        }
    }
}

/// A protobuf binary field: base64, whitespace ignored, trying `STANDARD`,
/// `URL_SAFE`, `URL_SAFE_NO_PAD` and `STANDARD_NO_PAD` in turn; blank text is
/// no bytes.
pub open spec fn decoded_binary_field(input: Seq<char>) -> Result<Seq<u8>, Seq<char>> {
    let t = trim(input);
    if t.len() == 0 {
        Ok(seq![])
    } else {
        match decoded_base64(t) {
            Some(b) => Ok(b),
            None => Err("invalid base64"@),
        }
    }
}

/// The text shown for YAML bytes: the bytes as text when they are UTF-8,
/// else their standard base64.
pub open spec fn yaml_text_of(bytes: Seq<u8>) -> Seq<char> {
    if valid_utf8(bytes) {
        decode_utf8(bytes)
    } else {
        base64_standard_encoding(bytes)
    }
}

pub open spec fn is_yaml_form(form: Seq<char>) -> bool {
    form == "yaml"@
}

pub open spec fn is_protobuf_form(form: Seq<char>) -> bool {
    form == "protobuf"@
}

/// Artifact or carrier text in a form: YAML is UTF-8 text, protobuf is
/// binary written as base64 (standard, or URL-safe, padded or not).
pub open spec fn decoded_payload(input: Seq<char>, form: Seq<char>) -> Result<Seq<u8>, Seq<char>> {
    if is_yaml_form(form) {
        Ok(encode_utf8(input))
    } else if is_protobuf_form(form) {
        decoded_binary_field(input)
    } else {
        Err("form must be yaml or protobuf"@)
    }
}

/// Artifact or carrier bytes as text: standard base64 for protobuf, YAML text otherwise.
pub open spec fn encoded_payload(bytes: Seq<u8>, form: Seq<char>) -> Seq<char> {
    if is_protobuf_form(form) {
        base64_standard_encoding(bytes)
    } else {
        yaml_text_of(bytes)
    }
}

fn hex_digit(n: u8) -> (c: char)
    requires
        n < 16,
    ensures
        c == hex_digit_char(n as int),
{
    if n < 10 {
        (48 + n) as char
    } else {
        (87 + n) as char
    }
}

/// Lowercase hex of `bytes`.
pub fn to_hex(bytes: &[u8]) -> (out: String)
    ensures
        out@ == hex_lower(bytes@),
{
    let mut out = String::new();
    let mut k: usize = 0;
    while k < bytes.len()
        invariant
            k <= bytes.len(),
            out@ == hex_lower(bytes@.take(k as int)),
        decreases bytes.len() - k,
    {
        let b = bytes[k];
        proof {
            let p = bytes@.take(k + 1);
            assert(p.drop_last() == bytes@.take(k as int));
            assert(p.last() == b);
        }
        push_char(&mut out, hex_digit(b / 16));
        push_char(&mut out, hex_digit(b % 16));
        k = k + 1;
    }
    assert(bytes@.take(bytes.len() as int) == bytes@);
    out
}

fn is_hex_digit_exec(c: char) -> (r: bool)
    ensures
        r == is_hex_digit(c),
{
    ('0' <= c && c <= '9') || ('a' <= c && c <= 'f') || ('A' <= c && c <= 'F')
}

fn hex_value_exec(c: char) -> (v: u8)
    requires
        is_hex_digit(c),
    ensures
        v == hex_value(c),
        v < 16,
{
    let u = c as u32;
    if '0' <= c && c <= '9' {
        (u - 48) as u8
    } else if 'a' <= c && c <= 'f' {
        (u - 87) as u8
    } else {
        (u - 55) as u8
    }
}

/// Hex decoding (see `decoded_hex`).
pub fn decode_hex(input: &str) -> (r: Result<Vec<u8>, ()>)
    ensures
        match r {
            Ok(b) => decoded_hex(input@) == Some(b@),
            Err(_) => decoded_hex(input@) is None,
        },
{
    let chars = chars_of(input);
    decode_hex_chars(&chars)
}

fn decode_hex_chars(chars: &Vec<char>) -> (r: Result<Vec<u8>, ()>)
    ensures
        match r {
            Ok(b) => decoded_hex(chars@) == Some(b@),
            Err(_) => decoded_hex(chars@) is None,
        },
{
    let t = trim_chars(chars);
    let n = t.len();
    let start: usize = if n >= 2 && t[0] == '0' && (t[1] == 'x' || t[1] == 'X') {
        2
    } else {
        0
    };
    let ghost s = strip_hex_prefix(t@);
    assert(s == t@.subrange(start as int, n as int));
    let mut compact: Vec<char> = Vec::new();
    let mut k = start;
    while k < n
        invariant
            start <= k <= n == t.len(),
            s == t@.subrange(start as int, n as int),
            compact@ == without_separators(t@.subrange(start as int, k as int)),
        decreases n - k,
    {
        let c = t[k];
        proof {
            let p = t@.subrange(start as int, k + 1);
            assert(p.drop_last() == t@.subrange(start as int, k as int));
            assert(p.last() == c);
        }
        if !(is_whitespace(c) || c == ':') {
            compact.push(c);
        }
        k = k + 1;
    }
    let m = compact.len();
    assert(compact@ == without_separators(strip_hex_prefix(trim(chars@))));
    if m == 0 || m % 2 != 0 {
        return Err(());
    }
    let mut j: usize = 0;
    while j < m
        invariant
            j <= m == compact.len(),
            compact@ == without_separators(strip_hex_prefix(trim(chars@))),
            forall|q: int| 0 <= q < j ==> is_hex_digit(compact@[q]),
        decreases m - j,
    {
        if !is_hex_digit_exec(compact[j]) {
            return Err(());
        }
        j = j + 1;
    }
    let mut out: Vec<u8> = Vec::new();
    let mut p: usize = 0;
    while p < m / 2
        invariant
            p <= m / 2,
            m == compact.len(),
            m % 2 == 0,
            compact@ == without_separators(strip_hex_prefix(trim(chars@))),
            forall|q: int| 0 <= q < m ==> is_hex_digit(compact@[q]),
            out@ == hex_pairs(compact@).take(p as int),
        decreases m / 2 - p,
    {
        let hi = hex_value_exec(compact[2 * p]);
        let lo = hex_value_exec(compact[2 * p + 1]);
        out.push(hi * 16 + lo);
        assert(hex_pairs(compact@).take(p + 1) == hex_pairs(compact@).take(p as int).push(
            (hex_value(compact@[2 * p]) * 16 + hex_value(compact@[2 * p + 1])) as u8,
        ));
        p = p + 1;
    }
    assert(hex_pairs(compact@).take((m / 2) as int) == hex_pairs(compact@));
    Ok(out)
}

/// Base64 decoding (see `decoded_base64`).
pub fn decode_base64(input: &str) -> (r: Result<Vec<u8>, String>)
    ensures
        match r {
            Ok(b) => decoded_base64(input@) == Some(b@),
            Err(e) => decoded_base64(input@) is None && e@ == "invalid base64"@,
        },
{
    let chars = chars_of(input);
    decode_base64_chars(&chars)
}

fn without_whitespace_chars(chars: &Vec<char>) -> (compact: Vec<char>)
    ensures
        compact@ == without_whitespace(chars@),
{
    let n = chars.len();
    let mut compact: Vec<char> = Vec::new();
    let mut k: usize = 0;
    while k < n
        invariant
            k <= n == chars.len(),
            compact@ == without_whitespace(chars@.take(k as int)),
        decreases n - k,
    {
        let c = chars[k];
        proof {
            let p = chars@.take(k + 1);
            assert(p.drop_last() == chars@.take(k as int));
            assert(p.last() == c);
        }
        if !is_whitespace(c) {
            compact.push(c);
        }
        k = k + 1;
    }
    assert(chars@.take(n as int) == chars@);
    compact
}

fn decode_base64_chars(chars: &Vec<char>) -> (r: Result<Vec<u8>, String>)
    ensures
        match r {
            Ok(b) => decoded_base64(chars@) == Some(b@),
            Err(e) => decoded_base64(chars@) is None && e@ == "invalid base64"@,
        },
{
    let compact = without_whitespace_chars(chars);
    if let Some(b) = base64_decode(Base64Engine::Standard, &compact) {
        return Ok(b);
    }
    if let Some(b) = base64_decode(Base64Engine::UrlSafe, &compact) {
        return Ok(b);
    }
    if let Some(b) = base64_decode(Base64Engine::UrlSafeNoPad, &compact) {
        return Ok(b);
    }
    if let Some(b) = base64_decode(Base64Engine::StandardNoPad, &compact) {
        return Ok(b);
    }
    Err(owned("invalid base64"))
}

/// Key material: hex (optional `0x`) or base64.
pub fn decode_key_bytes(input: &str) -> (r: Result<Vec<u8>, String>)
    ensures
        match r {
            Ok(b) => decoded_key_bytes(input@) == Ok::<Seq<u8>, Seq<char>>(b@),
            Err(e) => decoded_key_bytes(input@) == Err::<Seq<u8>, Seq<char>>(e@),
        },
{
    let chars = chars_of(input);
    let t = trim_chars(&chars);
    if t.len() == 0 {
        return Err(owned("empty key material"));
    }
    if let Ok(bytes) = decode_hex_chars(&t) {
        return Ok(bytes);
    }
    match decode_base64_chars(&t) {
        Ok(bytes) => Ok(bytes),
        Err(_) => Err(owned("key must be hex (optional 0x) or base64")),
    }
}

/// Unsigned YAML payload: the UTF-8 bytes of the text.
pub fn decode_yaml_text(input: &str) -> (r: Vec<u8>)
    ensures
        r@ == encode_utf8(input@),
{
    bytes_to_vec(input.as_bytes())
}

/// YAML bytes as text: the text itself when the bytes are UTF-8, else base64.
pub fn encode_yaml_text(bytes: &[u8]) -> (r: String)
    ensures
        r@ == yaml_text_of(bytes@),
{
    match utf8_text(bytes) {
        Some(text) => text,
        None => base64_encode_standard(bytes),
    }
}

/// A protobuf binary field: blank is no bytes, otherwise base64.
pub fn decode_binary_field(input: &str) -> (r: Result<Vec<u8>, String>)
    ensures
        match r {
            Ok(b) => decoded_binary_field(input@) == Ok::<Seq<u8>, Seq<char>>(b@),
            Err(e) => decoded_binary_field(input@) == Err::<Seq<u8>, Seq<char>>(e@),
        },
{
    let chars = chars_of(input);
    let t = trim_chars(&chars);
    if t.len() == 0 {
        return Ok(Vec::new());
    }
    decode_base64_chars(&t)
}

/// Artifact or signature-carrier wire: YAML is text, protobuf is standard base64.
pub fn decode_payload(input: &str, form: &str) -> (r: Result<Vec<u8>, String>)
    ensures
        match r {
            Ok(b) => decoded_payload(input@, form@) == Ok::<Seq<u8>, Seq<char>>(b@),
            Err(e) => decoded_payload(input@, form@) == Err::<Seq<u8>, Seq<char>>(e@),
        },
{
    if str_eq(form, "yaml") {
        Ok(decode_yaml_text(input))
    } else if str_eq(form, "protobuf") {
        decode_binary_field(input)
    } else {
        Err(owned("form must be yaml or protobuf"))
    }
}

/// Artifact or carrier bytes as text: base64 for protobuf, YAML text otherwise.
/// The text reads back to the same bytes: always for protobuf, and for YAML
/// when the bytes are UTF-8.
pub fn encode_payload(bytes: &[u8], form: &str) -> (r: String)
    ensures
        r@ == encoded_payload(bytes@, form@),
        is_yaml_form(form@) && valid_utf8(bytes@) ==> decoded_payload(r@, form@) == Ok::<
            Seq<u8>,
            Seq<char>,
        >(bytes@),
        is_protobuf_form(form@) ==> decoded_payload(r@, form@) == Ok::<
            Seq<u8>,
            Seq<char>,
        >(bytes@),
{
    proof {
        reveal_strlit("yaml");
        reveal_strlit("protobuf");
        assert("yaml"@.len() == 4);
        assert("protobuf"@.len() == 8);
    }
    if str_eq(form, "protobuf") {
        let r = base64_encode_standard(bytes);
        proof {
            lemma_no_whitespace(r@);
            if bytes@.len() == 0 {
                assert(r@.len() == 0);
                assert(bytes@ =~= Seq::<u8>::empty());
            } else {
                assert((bytes@.len() + 2) / 3 >= 1);
                assert(r@.len() > 0);
                assert(trim(r@).len() > 0);
            }
        }
        r
    } else {
        proof {
            if valid_utf8(bytes@) {
                decode_utf8_encode_utf8(bytes@);
            }
        }
        encode_yaml_text(bytes)
    }
}

/// Text without whitespace is its own trim and its own whitespace-free form.
proof fn lemma_no_whitespace(t: Seq<char>)
    requires
        forall|k: int| 0 <= k < t.len() ==> is_standard_base64_char(#[trigger] t[k]),
    ensures
        trim(t) == t,
        without_whitespace(t) == t,
    decreases t.len(),
{
    if t.len() > 0 {
        assert(is_standard_base64_char(t[0]));
        assert(is_standard_base64_char(t[t.len() - 1]));
        assert(trim_start(t) == t);
        assert(trim_end(t) == t);
        let p = t.drop_last();
        assert forall|k: int| 0 <= k < p.len() implies is_standard_base64_char(#[trigger] p[k]) by {
            assert(p[k] == t[k]);
        }
        lemma_no_whitespace(p);
        assert(p.push(t.last()) == t);
    }
}

// ---------------------------------------------------------------------------
// Laws.
// ---------------------------------------------------------------------------

proof fn lemma_hex_digit_char(n: int)
    requires
        0 <= n < 16,
    ensures
        is_hex_digit(hex_digit_char(n)),
        hex_value(hex_digit_char(n)) == n,
        !is_hex_separator(hex_digit_char(n)),
        hex_digit_char(n) != 'x' && hex_digit_char(n) != 'X',
{
}

pub(crate) proof fn lemma_hex_lower_shape(b: Seq<u8>)
    ensures
        hex_lower(b).len() == 2 * b.len(),
        forall|i: int|
            0 <= i < b.len() ==> #[trigger] hex_lower(b)[2 * i] == hex_digit_char(b[i] as int / 16)
                && hex_lower(b)[2 * i + 1] == hex_digit_char(b[i] as int % 16),
    decreases b.len(),
{
    if b.len() > 0 {
        let p = b.drop_last();
        lemma_hex_lower_shape(p);
        assert forall|i: int| 0 <= i < b.len() implies #[trigger] hex_lower(b)[2 * i]
            == hex_digit_char(b[i] as int / 16) && hex_lower(b)[2 * i + 1] == hex_digit_char(
            b[i] as int % 16,
        ) by {
            if i < p.len() {
                assert(hex_lower(p)[2 * i] == hex_digit_char(p[i] as int / 16));
            }
        }
    }
}

proof fn lemma_without_separators_id(t: Seq<char>)
    requires
        forall|k: int| 0 <= k < t.len() ==> !is_hex_separator(#[trigger] t[k]),
    ensures
        without_separators(t) == t,
    decreases t.len(),
{
    if t.len() > 0 {
        lemma_without_separators_id(t.drop_last());
        assert(t.drop_last().push(t.last()) == t);
    }
}

/// Hex written by `to_hex` is read back by `decode_hex` (for at least one byte).
pub proof fn law_hex_round_trip(b: Seq<u8>)
    requires
        b.len() > 0,
    ensures
        decoded_hex(hex_lower(b)) == Some(b),
{
    let h = hex_lower(b);
    lemma_hex_lower_shape(b);
    assert forall|k: int| 0 <= k < h.len() implies is_hex_digit(#[trigger] h[k]) && !is_hex_separator(
        h[k],
    ) && h[k] != 'x' && h[k] != 'X' by {
        let i = k / 2;
        assert(0 <= i < b.len());
        assert(k == 2 * i || k == 2 * i + 1);
        lemma_hex_digit_char(b[i] as int / 16);
        lemma_hex_digit_char(b[i] as int % 16);
        assert(hex_lower(b)[2 * i] == hex_digit_char(b[i] as int / 16));
        assert(hex_lower(b)[2 * i + 1] == hex_digit_char(b[i] as int % 16));
    }
    assert(trim_start(h) == h);
    assert(trim_end(h) == h);
    assert(strip_hex_prefix(h) == h);
    lemma_without_separators_id(h);
    assert forall|i: int| 0 <= i < b.len() implies #[trigger] hex_pairs(h)[i] == b[i] by {
        lemma_hex_digit_char(b[i] as int / 16);
        lemma_hex_digit_char(b[i] as int % 16);
        assert(h[2 * i] == hex_digit_char(b[i] as int / 16));
    }
    assert(hex_pairs(h) =~= b);
}

/// `char::to_ascii_uppercase`.
pub open spec fn ascii_upper(c: char) -> char {
    if 'a' <= c && c <= 'z' {
        (((c as u8) - 32) as u8) as char
    } else {
        c
    }
}

/// `str::to_ascii_uppercase`.
pub open spec fn ascii_upper_text(s: Seq<char>) -> Seq<char> {
    s.map_values(|c: char| ascii_upper(c))
}

proof fn lemma_upper_hex_digit_char(n: int)
    requires
        0 <= n < 16,
    ensures
        is_hex_digit(ascii_upper(hex_digit_char(n))),
        hex_value(ascii_upper(hex_digit_char(n))) == n,
        !is_hex_separator(ascii_upper(hex_digit_char(n))),
{
}

/// Hex written by `to_hex`, uppercased and prefixed with `0X`, reads back too.
pub proof fn law_upper_hex_round_trip(b: Seq<u8>)
    requires
        b.len() > 0,
    ensures
        decoded_hex("0X"@ + ascii_upper_text(hex_lower(b))) == Some(b),
{
    reveal_strlit("0X");
    let h = hex_lower(b);
    let u = ascii_upper_text(h);
    let t = "0X"@ + u;
    lemma_hex_lower_shape(b);
    assert forall|k: int| 0 <= k < u.len() implies is_hex_digit(#[trigger] u[k]) && !is_hex_separator(
        u[k],
    ) by {
        let i = k / 2;
        assert(k == 2 * i || k == 2 * i + 1);
        lemma_upper_hex_digit_char(b[i] as int / 16);
        lemma_upper_hex_digit_char(b[i] as int % 16);
        assert(h[2 * i] == hex_digit_char(b[i] as int / 16));
        assert(h[2 * i + 1] == hex_digit_char(b[i] as int % 16));
        assert(u[k] == ascii_upper(h[k]));
    }
    assert(t[0] == '0');
    assert(t[t.len() - 1] == u[u.len() - 1]);
    assert(trim_start(t) == t);
    assert(trim_end(t) == t);
    assert(strip_hex_prefix(t) =~= u);
    lemma_without_separators_id(u);
    assert forall|i: int| 0 <= i < b.len() implies #[trigger] hex_pairs(u)[i] == b[i] by {
        lemma_upper_hex_digit_char(b[i] as int / 16);
        lemma_upper_hex_digit_char(b[i] as int % 16);
        assert(h[2 * i] == hex_digit_char(b[i] as int / 16));
        assert(h[2 * i + 1] == hex_digit_char(b[i] as int % 16));
        assert(u[2 * i] == ascii_upper(h[2 * i]));
        assert(u[2 * i + 1] == ascii_upper(h[2 * i + 1]));
    }
    assert(hex_pairs(u) =~= b);
}

/// Key material written as hex by `to_hex` decodes to the same bytes.
pub proof fn law_key_bytes_hex_round_trip(b: Seq<u8>)
    requires
        b.len() > 0,
    ensures
        decoded_key_bytes(hex_lower(b)) == Ok::<Seq<u8>, Seq<char>>(b),
{
    law_hex_round_trip(b);
    let h = hex_lower(b);
    lemma_hex_lower_shape(b);
    lemma_hex_digit_char(b[0] as int / 16);
    lemma_hex_digit_char(b[b.len() - 1] as int % 16);
    assert(h[0] == hex_digit_char(b[0] as int / 16));
    assert(h[2 * (b.len() - 1) + 1] == hex_digit_char(b[b.len() - 1] as int % 16));
    assert(trim_start(h) == h);
    assert(trim_end(h) == h);
}

/// The text of a YAML payload survives the trip to bytes and back.
pub proof fn law_yaml_text_round_trip(s: Seq<char>)
    ensures
        yaml_text_of(encode_utf8(s)) == s,
        encoded_payload(decoded_payload(s, "yaml"@)->Ok_0, "yaml"@) == s,
{
    encode_utf8_valid_utf8(s);
    encode_utf8_decode_utf8(s);
    reveal_strlit("yaml");
    reveal_strlit("protobuf");
    assert("yaml"@.len() == 4);
    assert("protobuf"@.len() == 8);
    assert(!is_protobuf_form("yaml"@));
    assert(decoded_payload(s, "yaml"@) == Ok::<Seq<u8>, Seq<char>>(encode_utf8(s)));
}

} // verus!
