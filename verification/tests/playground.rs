use yaml_sigil_web::ops::OpResult;
use yaml_sigil_web::playground::{
    after_delete, carrier_sync_first, compose_switch_start, compose_switch_step, convert_visible,
    decompose_switch_start, decompose_switch_step, hash_needs_update, hint_applies, identity_meta,
    identity_option, is_blank, match_hint, outer_argument, outer_select, select_fallback,
    status_class, status_level, status_message, window_for_hash, ComposeSwitch, DecomposeSwitch,
    DEFAULT_IDENTITY, WINDOWS,
};

fn result(status: &str, code: Option<&str>, extra: &str, extra_label: &str) -> OpResult {
    OpResult {
        status: status.to_string(),
        code: code.map(str::to_string),
        primary: String::new(),
        extra: extra.to_string(),
        extra_label: extra_label.to_string(),
    }
}

#[test]
fn hashes_route_to_windows() {
    for name in WINDOWS {
        assert_eq!(window_for_hash(&format!("#{name}")), Some(name));
    }
    assert_eq!(window_for_hash("##  sign "), Some("sign"));
    assert_eq!(window_for_hash(""), None);
    assert_eq!(window_for_hash("#Sign"), None);
    assert_eq!(window_for_hash("#deck"), None);
    assert!(hash_needs_update("", "sign"));
    assert!(!hash_needs_update("#sign", "sign"));
    assert!(!hash_needs_update("", ""));
    assert!(hash_needs_update("#sign", ""));
}

#[test]
fn status_lines() {
    assert_eq!(status_level("verified"), "ok");
    assert_eq!(status_level("ok"), "ok");
    assert_eq!(status_level("unsigned"), "warn");
    assert_eq!(status_level("invocation_error"), "err");
    let line = status_message(&result("invocation_error", Some("invalid_keyid"), "", ""));
    assert_eq!(line, "invocation_error / invalid_keyid");
    let line = status_message(&result("verified", None, "ED25519_PUREEDDSA_RAW_RS64_CANONICAL", "algorithm"));
    assert_eq!(line, "verified · ED25519_PUREEDDSA_RAW_RS64_CANONICAL");
    let line = status_message(&result("ok", None, "carrier", "signature carrier"));
    assert_eq!(line, "ok");
    assert_eq!(status_class(""), "status");
    assert_eq!(status_class("warn"), "status warn");
    assert!(is_blank(" \n\t"));
    assert!(!is_blank(" a "));
}

#[test]
fn selection_after_delete_falls_back() {
    let (selected, current) = after_delete("dave", "dave", "dave");
    assert_eq!((selected.as_str(), current.as_str()), (DEFAULT_IDENTITY, DEFAULT_IDENTITY));
    let (selected, current) = after_delete("dave", "dave", "bob");
    assert_eq!((selected.as_str(), current.as_str()), ("bob", "bob"));
    let (selected, current) = after_delete("dave", "carol", "dave");
    assert_eq!((selected.as_str(), current.as_str()), ("carol", DEFAULT_IDENTITY));

    let ids: Vec<String> = ["alice", "bob", "erin"].iter().map(|s| s.to_string()).collect();
    assert_eq!(select_fallback(&ids, "bob", "erin"), "bob");
    assert_eq!(select_fallback(&ids, "dave", "erin"), "erin");
    assert_eq!(select_fallback(&ids, "dave", "zed"), DEFAULT_IDENTITY);
}

#[test]
fn identity_texts() {
    assert_eq!(
        identity_meta("ED25519_PUREEDDSA_RAW_RS64_CANONICAL", "aabbccddeeff0011"),
        "Ed25519 · aabbccdd…0011"
    );
    assert_eq!(identity_meta("x", "abcd"), "unknown · abcd");
    assert_eq!(identity_option("Alice", "ECDSA_SECP256R1_SHA256_RAW_RS64"), "Alice · P-256");
}

#[test]
fn verify_helpers() {
    assert!(convert_visible("x", false, true));
    assert!(!convert_visible("  ", false, true));
    assert!(!convert_visible("x", true, true));
    assert!(!convert_visible("x", false, false));
    assert!(hint_applies("signed_but_failed_verification"));
    assert!(hint_applies("signed_but_algorithm_unsupported"));
    assert!(!hint_applies("unsigned"));
    assert_eq!(
        match_hint("signed_but_failed_verification", "Bob"),
        "signed_but_failed_verification (but this does match Bob's key)"
    );
}

#[test]
fn outer_conformance_select() {
    assert_eq!(outer_select("protobuf", "omit"), (false, "strict".to_string()));
    assert_eq!(outer_select("protobuf", "signature_strict"), (false, "signature_strict".to_string()));
    assert_eq!(outer_select("yaml", "strict"), (true, "omit".to_string()));
    assert_eq!(outer_argument(Some("omit")), None);
    assert_eq!(outer_argument(Some("strict")), Some("strict"));
    assert_eq!(outer_argument(None), None);
}

#[test]
fn compose_switch_paths() {
    assert_eq!(compose_switch_start("yaml", "yaml", "a", "", ""), ComposeSwitch::Unchanged);
    assert_eq!(compose_switch_start("yaml", "protobuf", " ", "", ""), ComposeSwitch::Remember);
    assert_eq!(compose_switch_start("yaml", "protobuf", "a", "b", "c"), ComposeSwitch::TranscodeArtifact);
    assert_eq!(compose_switch_start("yaml", "protobuf", "a", "", " "), ComposeSwitch::ComposePrevious);

    let s = ComposeSwitch::TranscodeArtifact;
    assert_eq!(compose_switch_step(s, true, false), ComposeSwitch::ApplyTranscoded);
    assert_eq!(compose_switch_step(s, false, true), ComposeSwitch::Revert);
    let s = compose_switch_step(s, false, false);
    assert_eq!(s, ComposeSwitch::ComposePrevious);
    let s = compose_switch_step(s, true, false);
    assert_eq!(s, ComposeSwitch::TranscodeComposed);
    let s = compose_switch_step(s, false, false);
    assert_eq!(s, ComposeSwitch::ComposeNext);
    assert_eq!(compose_switch_step(s, true, false), ComposeSwitch::UseComposed);
    assert_eq!(compose_switch_step(s, false, false), ComposeSwitch::Revert);
    assert_eq!(compose_switch_step(ComposeSwitch::Revert, true, true), ComposeSwitch::Revert);
    assert!(carrier_sync_first("protobuf", "yaml"));
    assert!(!carrier_sync_first("yaml", "protobuf"));
    assert!(!carrier_sync_first("protobuf", "protobuf"));
}

#[test]
fn decompose_switch_paths() {
    assert_eq!(decompose_switch_start("yaml", "yaml", "x"), DecomposeSwitch::Schedule);
    assert_eq!(decompose_switch_start("yaml", "protobuf", " "), DecomposeSwitch::Schedule);
    let s = decompose_switch_start("yaml", "protobuf", "x");
    assert_eq!(s, DecomposeSwitch::TryDirect);
    assert_eq!(decompose_switch_step(s, true), DecomposeSwitch::Run);
    let s = decompose_switch_step(s, false);
    assert_eq!(s, DecomposeSwitch::TryTranscode);
    assert_eq!(decompose_switch_step(s, true), DecomposeSwitch::ReplaceAndRun);
    assert_eq!(decompose_switch_step(s, false), DecomposeSwitch::Run);
}
