use yaml_sigil_web::keys::generate_keypair;
use yaml_sigil_web::ops::{
    unsigned_result, compose_request, compose_result, decompose_request, decompose_result, sign_request, sign_result,
    transcode_request, transcode_result, validate_yaml, verify_request, verify_result, AlgorithmId,
    ComposeOutcome, Conversion, DecomposeResponse, DecomposeStatus, Form, OuterConformance,
    SignFailure, SignInvocation, SignOutcome, TranscodeFailure, TranscodePlan,
    TranscriberFailure, TranscriberInvocation, VerifierState, VerifyInvocation, ED25519_NAME,
    P256_NAME,
};

const YAML: &str = "claim: ridge-line cache\nseason: 2026\n";

#[test]
fn validate_yaml_parse() {
    let parsed = validate_yaml(YAML);
    assert_eq!(parsed.status, "success");

    let bad = validate_yaml("foo: [unterminated");
    assert_eq!(bad.status, "error", "{bad:?}");
}

#[test]
fn selectors_are_exact() {
    let signed = sign_request(YAML, "ed25519", "00", None, true, "yaml");
    assert_eq!(signed.err().expect("refused").status, "invocation_error");
    let composed = compose_request(YAML, YAML, "YAML");
    assert_eq!(composed.err().expect("refused").status, "invocation_error");
    let yaml_outer = decompose_request(YAML, "yaml", Some("strict"));
    assert_eq!(yaml_outer.err().expect("refused").status, "invocation_error");
    let proto_missing_outer = decompose_request("AAAA", "protobuf", None);
    assert_eq!(proto_missing_outer.err().expect("refused").status, "invocation_error");
}

#[test]
fn transcode_rejects_unsigned_yaml() {
    let failed = transcode_result(Err(TranscodeFailure::NotSignedYamlStream), "protobuf");
    assert_eq!(failed.status, "transcode_error", "{failed:?}");
    assert_eq!(failed.code.as_deref(), Some("not_signed_yaml_stream"));
}

#[test]
fn yaml_decompose_rejects_non_yaml() {
    let unsigned_outcome = || DecomposeResponse::Decomposed {
        outcome: DecomposeStatus::Unsigned,
        payload: None,
        signature_carrier: None,
    };
    let junk = decompose_result(unsigned_outcome(), "yaml", b"foo: [unterminated");
    assert_eq!(junk.status, "could_not_decompose", "{junk:?}");
    assert_eq!(junk.code.as_deref(), Some("not_a_yaml_document"));

    let unsigned = decompose_result(unsigned_outcome(), "yaml", YAML.as_bytes());
    assert_eq!(unsigned.status, "unsigned", "{unsigned:?}");

    let not_utf8 = decompose_result(unsigned_outcome(), "yaml", &[0xff, 0xfe]);
    assert_eq!(not_utf8.code.as_deref(), Some("not_a_yaml_document"));

    let proto = decompose_result(unsigned_outcome(), "protobuf", &[0xff]);
    assert_eq!(proto.status, "unsigned");
}

#[test]
fn decompose_split_shows_payload_and_carrier() {
    let split = decompose_result(
        DecomposeResponse::Decomposed {
            outcome: DecomposeStatus::Split,
            payload: Some(YAML.as_bytes().to_vec()),
            signature_carrier: Some(vec![1, 2, 3]),
        },
        "protobuf",
        &[],
    );
    assert_eq!(split.status, "ok");
    assert_eq!(split.primary, YAML);
    assert_eq!(split.extra, "AQID");
    assert_eq!(split.extra_label, "signature carrier");

    let malformed = decompose_result(
        DecomposeResponse::Decomposed {
            outcome: DecomposeStatus::MalformedAttemptedSigned,
            payload: None,
            signature_carrier: None,
        },
        "yaml",
        &[],
    );
    assert_eq!(malformed.status, "malformed_attempted_signed");

    let invocation = decompose_result(
        DecomposeResponse::Invocation(TranscriberInvocation::InvalidOrUnsupportedOuterConformance),
        "protobuf",
        &[],
    );
    assert_eq!(invocation.status, "invocation_error");
    assert_eq!(invocation.code.as_deref(), Some("invalid_or_unsupported_outer_conformance"));
}

#[test]
fn decompose_request_reads_selectors() {
    let input = decompose_request("AQID", "protobuf", Some("  strict ")).expect("input");
    assert_eq!(input.artifact, vec![1, 2, 3]);
    assert_eq!(input.form, Form::Protobuf);
    assert_eq!(input.outer_conformance, Some(OuterConformance::Strict));

    let input = decompose_request(YAML, "yaml", Some("   ")).expect("blank outer is none");
    assert_eq!(input.form, Form::Yaml);
    assert_eq!(input.outer_conformance, None);
    assert_eq!(input.artifact, YAML.as_bytes());

    let bad = decompose_request("AQID", "protobuf", Some("loose")).err().expect("refused");
    assert_eq!(bad.code.as_deref(), Some("invalid_or_unsupported_outer_conformance"));

    let bad = decompose_request("$$$$", "protobuf", Some("signature_strict")).err().expect("refused");
    assert_eq!(bad.status, "invocation_error");
    assert_eq!(bad.code.as_deref(), Some("invalid base64"));
}

#[test]
fn compose_request_and_result() {
    let input = compose_request(YAML, "Cgs=", "protobuf").expect("input");
    assert_eq!(input.payload, YAML.as_bytes());
    assert_eq!(input.signature_carrier, vec![0x0a, 0x0b]);
    assert_eq!(input.form, Form::Protobuf);

    let bad = compose_request(YAML, YAML, "yaml-ish").err().expect("refused");
    assert_eq!(bad.code.as_deref(), Some("invalid_or_unsupported_form"));

    let ok = compose_result(ComposeOutcome::Success { artifact: vec![0, 0, 0] }, "protobuf");
    assert_eq!(ok.status, "success");
    assert_eq!(ok.primary, "AAAA");

    let err = compose_result(ComposeOutcome::Error(TranscriberFailure::InvalidPayloadBytes), "yaml");
    assert_eq!(err.status, "error");
    assert_eq!(err.code.as_deref(), Some("invalid_payload_bytes"));

    let inv = compose_result(ComposeOutcome::Invocation(TranscriberInvocation::InvalidOrUnsupportedForm), "yaml");
    assert_eq!(inv.status, "invocation_error");
    assert_eq!(inv.code.as_deref(), Some("invalid_or_unsupported_form"));
}

#[test]
fn transcode_request_plans() {
    match transcode_request("anything at all", "yaml", "yaml") {
        TranscodePlan::Done(out) => {
            assert_eq!(out.status, "success");
            assert_eq!(out.primary, "anything at all");
        }
        TranscodePlan::Convert { .. } => panic!("equal forms pass through"),
    }
    match transcode_request(YAML, "yaml", "protobuf") {
        TranscodePlan::Convert { artifact, conversion } => {
            assert_eq!(artifact, YAML.as_bytes());
            assert_eq!(conversion, Conversion::YamlToProtobuf);
        }
        TranscodePlan::Done(out) => panic!("{out:?}"),
    }
    match transcode_request("AQID", "protobuf", "yaml") {
        TranscodePlan::Convert { artifact, conversion } => {
            assert_eq!(artifact, vec![1, 2, 3]);
            assert_eq!(conversion, Conversion::ProtobufToYaml);
        }
        TranscodePlan::Done(out) => panic!("{out:?}"),
    }
    match transcode_request(YAML, "yaml", "cbor") {
        TranscodePlan::Done(out) => {
            assert_eq!(out.code.as_deref(), Some("invalid_or_unsupported_form"))
        }
        TranscodePlan::Convert { .. } => panic!("unknown form"),
    }
    let ok = transcode_result(Ok(b"a: 1\n".to_vec()), "yaml");
    assert_eq!(ok.status, "success");
    assert_eq!(ok.primary, "a: 1\n");
}

#[test]
fn sign_request_checks_selectors_and_key() {
    let pair = generate_keypair(ED25519_NAME).expect("keys");
    let input = sign_request(YAML, ED25519_NAME, &pair.private_hex, Some(""), false, "protobuf").expect("input");
    assert_eq!(input.algorithm, AlgorithmId::Ed25519);
    assert_eq!(input.output_form, Form::Protobuf);
    assert_eq!(input.key_bytes.len(), 32);
    assert_eq!(input.keyid, None);
    assert!(!input.append_missing_final_newline);
    assert_eq!(input.payload, YAML.as_bytes());

    let pair = generate_keypair(P256_NAME).expect("keys");
    let input = sign_request(YAML, P256_NAME, &pair.private_hex, Some("demo"), true, "yaml").expect("input");
    assert_eq!(input.algorithm, AlgorithmId::EcdsaP256Sha256);
    assert_eq!(input.keyid.as_deref(), Some("demo"));

    let bad_form = sign_request(YAML, ED25519_NAME, "00", None, true, "json").err().expect("refused");
    assert_eq!(bad_form.code.as_deref(), Some("invalid_or_unsupported_output_form"));
    let short_key = sign_request(YAML, ED25519_NAME, "00", None, true, "yaml").err().expect("refused");
    assert_eq!(short_key.code.as_deref(), Some("invalid_signing_key"));
    let zero_scalar = "00".repeat(32);
    let zero = sign_request(YAML, P256_NAME, &zero_scalar, None, true, "yaml").err().expect("refused");
    assert_eq!(zero.code.as_deref(), Some("invalid_signing_key"));
    let empty = sign_request(YAML, P256_NAME, "  ", None, true, "yaml").err().expect("refused");
    assert_eq!(empty.code.as_deref(), Some("empty key material"));
}

#[test]
fn sign_result_shows_modified_payload_only_when_there_is_one() {
    let plain = sign_result(
        SignOutcome::Success { artifact: b"x: 1\n".to_vec(), modified_payload: Vec::new() },
        "yaml",
    );
    assert_eq!(plain.status, "success");
    assert_eq!(plain.primary, "x: 1\n");
    assert_eq!(plain.extra, "");
    assert_eq!(plain.extra_label, "");

    let modified = sign_result(
        SignOutcome::Success { artifact: vec![0xfb], modified_payload: b"x: 1\n".to_vec() },
        "protobuf",
    );
    assert_eq!(modified.primary, "+w==");
    assert_eq!(modified.extra, "x: 1\n");
    assert_eq!(modified.extra_label, "modified payload");

    let refused = sign_result(SignOutcome::Invocation(SignInvocation::InvalidKeyid), "yaml");
    assert_eq!(refused.status, "invocation_error");
    assert_eq!(refused.code.as_deref(), Some("invalid_keyid"));
    let failed = sign_result(SignOutcome::Signer(SignFailure::PayloadLineTerminatorRefusal), "yaml");
    assert_eq!(failed.status, "signer_error");
    assert_eq!(failed.code.as_deref(), Some("payload_line_terminator_refusal"));
}

#[test]
fn verify_request_and_result() {
    let input = verify_request("AQID", "protobuf", ED25519_NAME, "0x0a0b").expect("input");
    assert_eq!(input.artifact, vec![1, 2, 3]);
    assert_eq!(input.key_bytes, vec![0x0a, 0x0b]);
    assert_eq!(input.algorithm, AlgorithmId::Ed25519);

    let bad = verify_request(YAML, "yaml", "ed25519", "00").err().expect("refused");
    assert_eq!(bad.code.as_deref(), Some("invalid_or_unsupported_algorithm"));
    let bad = verify_request(YAML, "yaml", P256_NAME, "").err().expect("refused");
    assert_eq!(bad.code.as_deref(), Some("empty key material"));

    let ok = verify_result(Ok(VerifierState::Verified {
        payload: YAML.as_bytes().to_vec(),
        algorithm: AlgorithmId::EcdsaP256Sha256,
    }));
    assert_eq!(ok.status, "verified");
    assert_eq!(ok.primary, YAML);
    assert_eq!(ok.extra, P256_NAME);
    assert_eq!(ok.extra_label, "algorithm");

    let rejected = verify_result(Err(VerifyInvocation::KeyResolutionFailure));
    assert_eq!(rejected.status, "invocation_error");
    assert_eq!(rejected.code.as_deref(), Some("key_resolution_failure"));

    let unsupported = verify_result(Ok(VerifierState::SignedButAlgorithmUnsupported {
        algorithm: AlgorithmId::Ed25519,
    }));
    assert_eq!(unsupported.status, "signed_but_algorithm_unsupported");
    assert_eq!(unsupported.extra, ED25519_NAME);
    assert_eq!(verify_result(Ok(VerifierState::Unsigned)).status, "unsigned");
    assert_eq!(
        verify_result(Ok(VerifierState::SignedButFailedVerification)).status,
        "signed_but_failed_verification"
    );
    assert_eq!(
        verify_result(Ok(VerifierState::MalformedAttemptedSigned)).status,
        "malformed_attempted_signed"
    );
}

#[test]
fn unsigned_result_follows_the_parse() {
    assert_eq!(unsigned_result("yaml", Some(true)).status, "unsigned");
    let junk = unsigned_result("yaml", Some(false));
    assert_eq!(junk.status, "could_not_decompose");
    assert_eq!(junk.code.as_deref(), Some("not_a_yaml_document"));
    assert_eq!(unsigned_result("yaml", None).code.as_deref(), Some("not_a_yaml_document"));
    assert_eq!(unsigned_result("protobuf", None).status, "unsigned");
}
