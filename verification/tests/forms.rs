use yaml_sigil_web::forms::other_form;

#[test]
fn toggles_yaml_and_protobuf() {
    assert_eq!(other_form("protobuf"), "yaml");
    assert_eq!(other_form("yaml"), "protobuf");
    assert_eq!(other_form("anything"), "protobuf");
}

#[test]
fn toggling_twice_returns_the_form() {
    for form in ["yaml", "protobuf"] {
        assert_eq!(other_form(other_form(form)), form);
    }
}
