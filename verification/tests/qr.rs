use qrcode::EcLevel;
use yaml_sigil_web::qr::{can_encode, encode, qr_code};

#[test]
fn sample_yaml_encodes() {
    let yaml = "claim: ridge-line cache\nseason: 2026\n---\nalg: ED25519_PUREEDDSA_RAW_RS64_CANONICAL\nkeyid: alice\n";
    let image = encode(yaml).expect("encode");
    assert!(image.svg.contains("<svg"));
    assert!(image.svg.contains("#000000"));
    assert!(image.svg.contains("#ffffff"));
    assert_eq!(image.modules.len(), image.width * image.width);
    assert!(image.width >= 21);
    assert_eq!(
        qr_code(yaml).expect("code").error_correction_level(),
        EcLevel::M
    );
    assert!(can_encode(yaml));
}

#[test]
fn empty_and_oversized_fail() {
    assert!(encode("").is_err());
    assert!(!can_encode(""));
    let huge = "x".repeat(8_000);
    assert!(encode(&huge).is_err());
    assert!(!can_encode(&huge));
}

#[test]
fn modules_match_the_outside_code() {
    let text = "keyid: alice\n";
    let image = encode(text).expect("encode");
    let code = qrcode::QrCode::with_error_correction_level(text.as_bytes(), EcLevel::M).expect("code");
    assert_eq!(image.width, code.width());
    for y in 0..code.width() {
        for x in 0..code.width() {
            let dark = code[(x, y)] == qrcode::Color::Dark;
            assert_eq!(image.modules[y * image.width + x], dark);
        }
    }
    assert_eq!(encode("").err().as_deref(), Some("empty"));
}
