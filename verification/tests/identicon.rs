use yaml_sigil_web::identicon::svg_for_key;
use yaml_sigil_web::keys::generate_keypair;
use yaml_sigil_web::ops::ED25519_NAME;

#[test]
fn svg_for_ed25519_pubkey_is_nonempty() {
    let pair = generate_keypair(ED25519_NAME).expect("mint");
    let svg = svg_for_key(ED25519_NAME, &pair.public_hex).expect("svg");
    assert!(svg.contains("<svg"));
    assert!(svg.contains("<circle"));
    let other = generate_keypair(ED25519_NAME).expect("mint");
    let other_svg = svg_for_key(ED25519_NAME, &other.public_hex).expect("svg");
    assert_ne!(svg, other_svg);
}

#[test]
fn empty_or_garbage_key_has_no_icon() {
    assert!(svg_for_key(ED25519_NAME, "").is_none());
    assert!(svg_for_key(ED25519_NAME, "not-a-key").is_none());
}

#[test]
fn identicon_depends_on_the_algorithm_and_is_stable() {
    let a = svg_for_key("A", "0x0102").expect("svg");
    let b = svg_for_key("B", "0x0102").expect("svg");
    assert_eq!(a, svg_for_key("A", "01:02").expect("svg"));
    assert_ne!(a, b);
    let direct = plot_icon::generate_svg(&[b'A', 0, 1, 2]).to_string();
    assert_eq!(a, direct);
}
