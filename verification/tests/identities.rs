use yaml_sigil_web::identities::{assign_preset_algs, short_alg, slugify, trunc_hex, Roster, PRESET_IDS};
use yaml_sigil_web::ops::{ED25519_NAME, P256_NAME};

fn has_both_algs(algs: &[String; 3]) -> bool {
    algs.iter().any(|alg| alg == ED25519_NAME) && algs.iter().any(|alg| alg == P256_NAME)
}

#[test]
fn preset_algs_always_include_both() {
    for round in 0..64_u64 {
        let algs = assign_preset_algs();
        assert!(has_both_algs(&algs), "round {round} => {algs:?}");
    }
}

#[test]
fn seed_creates_three_unique_presets() {
    let roster = Roster::seed().expect("seed");
    assert_eq!(roster.list().len(), 3);
    for id in PRESET_IDS {
        let identity = roster.get(id).expect(id);
        assert!(identity.preset);
        assert_eq!(identity.id, id);
        assert!(!identity.private_hex.is_empty());
        assert!(!identity.public_hex.is_empty());
    }
    let keys: Vec<_> = roster
        .list()
        .iter()
        .map(|identity| identity.private_hex.as_str())
        .collect();
    assert_ne!(keys[0], keys[1]);
    assert_ne!(keys[1], keys[2]);
    assert_ne!(keys[0], keys[2]);
    let algs = [
        roster.get("alice").unwrap().algorithm.clone(),
        roster.get("bob").unwrap().algorithm.clone(),
        roster.get("carol").unwrap().algorithm.clone(),
    ];
    assert!(has_both_algs(&algs));
}

#[test]
fn add_remint_delete_user_identity() {
    let mut roster = Roster::seed().expect("seed");
    let id = roster.add("Dave", ED25519_NAME).expect("add");
    assert_eq!(id, "dave");
    let first = roster.get("dave").expect("dave").clone();
    assert!(!first.preset);
    assert_eq!(first.label, "Dave");

    roster.remint("dave", P256_NAME).expect("remint");
    let second = roster.get("dave").expect("dave");
    assert_eq!(second.algorithm, P256_NAME);
    assert_ne!(second.private_hex, first.private_hex);

    roster.update_keys("dave", "aa", "bb").expect("update");
    assert_eq!(roster.get("dave").unwrap().public_hex, "bb");

    roster.delete("dave").expect("delete");
    assert!(roster.get("dave").is_none());
}

#[test]
fn presets_are_frozen() {
    let mut roster = Roster::seed().expect("seed");
    assert!(roster.remint("alice", ED25519_NAME).is_err());
    assert!(roster.delete("bob").is_err());
    assert!(roster.update_keys("carol", "aa", "bb").is_err());
    assert!(roster.add("Alice", ED25519_NAME).is_err());
    assert!(roster.add("ALICE", ED25519_NAME).is_err());
    assert!(roster.add("   ", ED25519_NAME).is_err());
    assert!(roster.add("!!!", ED25519_NAME).is_err());
}

#[test]
fn names_are_unique_ignoring_case() {
    let mut roster = Roster::seed().expect("seed");
    roster.add("Dave", ED25519_NAME).expect("add");
    assert!(roster.add("dave", P256_NAME).is_err());
    assert!(roster.add("DAVE", P256_NAME).is_err());
    assert!(roster.add("Dave", ED25519_NAME).is_err());
}

#[test]
fn slugify_names() {
    assert_eq!(slugify("Dave Smith"), "dave-smith");
    assert_eq!(slugify("  Carol  "), "carol");
    assert_eq!(slugify("!!!"), "");
    assert_eq!(trunc_hex("aabbccddeeff0011"), "aabbccdd…0011");
    assert_eq!(short_alg(ED25519_NAME), "Ed25519");
    assert_eq!(short_alg(P256_NAME), "P-256");
}

#[test]
fn roster_errors_name_the_problem() {
    let mut roster = Roster::seed().expect("seed");
    assert_eq!(roster.add("", ED25519_NAME).unwrap_err(), "name is required");
    assert_eq!(
        roster.add("!!!", ED25519_NAME).unwrap_err(),
        "name must include a letter or digit"
    );
    assert_eq!(
        roster.add("alice", ED25519_NAME).unwrap_err(),
        "identity 'alice' already exists (names are unique ignoring case)"
    );
    assert_eq!(roster.add("Eve", "rsa").unwrap_err(), "unsupported algorithm");
    assert_eq!(roster.list().len(), 3);
    assert_eq!(roster.delete("zed").unwrap_err(), "unknown identity 'zed'");
    assert_eq!(
        roster.remint("alice", ED25519_NAME).unwrap_err(),
        "alice, bob, and carol keep the keys minted at load"
    );
    assert_eq!(roster.delete("bob").unwrap_err(), "alice, bob, and carol cannot be removed");
    assert_eq!(
        roster.update_keys("carol", "aa", "bb").unwrap_err(),
        "alice, bob, and carol keys are read-only"
    );
}

#[test]
fn slugs_collapse_separators() {
    assert_eq!(slugify("--A__b  C9--"), "a-b-c9");
    assert_eq!(slugify("Zoë Ñ 7"), "zo-7");
    assert_eq!(trunc_hex("aabbccddeeff"), "aabbccddeeff");
    assert_eq!(short_alg("other"), "unknown");
}

#[test]
fn a_slug_clash_is_refused_even_with_another_label() {
    let mut roster = Roster::default();
    assert_eq!(roster.add("Dave Smith", ED25519_NAME).unwrap(), "dave-smith");
    assert!(roster.add("dave  smith!", P256_NAME).is_err());
    assert_eq!(roster.list().len(), 1);
}
