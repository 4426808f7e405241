use yaml_sigil_web::highlight::html;

#[test]
fn sample_manifest_highlights_keys_and_comments() {
    let yaml = "# A supply-wagon manifest\nclaim: ridge-line cache\nseason: 2026\n";
    let painted = html(yaml);
    assert!(painted.contains("yaml-comment"));
    assert!(painted.contains("yaml-key"));
    assert!(painted.contains("yaml-number"));
    assert!(!painted.contains("yaml-doc"));
}

#[test]
fn multi_doc_marks_separator_and_both_documents() {
    let yaml = "claim: ridge-line cache\n---\nschema: YamlSigilSignature.v1alpha1\n";
    let painted = html(yaml);
    assert!(painted.contains("class=\"yaml-doc\">---</span>"));
    assert!(painted.contains("claim"));
    assert!(painted.contains("schema"));
    let key_count = painted.matches("yaml-key").count();
    assert!(key_count >= 2, "{painted}");
}

#[test]
fn quoted_marker_is_a_string() {
    let yaml = "note: \"---\"\n";
    let painted = html(yaml);
    assert!(painted.contains("yaml-string"));
    assert!(!painted.contains("yaml-doc"));
}

#[test]
fn quoted_and_plain_scalars_share_string_class() {
    let quoted = html("note: \"ridge-line cache\"\n");
    let plain = html("note: ridge-line cache\n");
    assert!(quoted.contains("yaml-string"));
    assert!(plain.contains("yaml-string"));
    assert!(plain.contains("ridge-line"));
}

#[test]
fn values_are_html_escaped() {
    let yaml = "note: a < b & c\n";
    let painted = html(yaml);
    assert!(painted.contains("&lt;"));
    assert!(painted.contains("&amp;"));
    assert!(!painted.contains("a < b"));
}

#[test]
fn exact_rendering_of_a_mapping_line() {
    assert_eq!(
        html("a: 1\n"),
        "<span class=\"yaml-key\">a</span><span class=\"yaml-punct\">:</span> <span class=\"yaml-number\">1</span>\n"
    );
}

#[test]
fn crlf_and_final_cr_become_line_feeds() {
    assert_eq!(html("x\r\n"), "<span class=\"yaml-string\">x</span>\n");
    assert_eq!(html("x\r"), "<span class=\"yaml-string\">x</span>\n");
    assert_eq!(html(""), "");
}

#[test]
fn scalars_and_markers_get_their_classes() {
    let painted = html("%YAML 1.2\n...\n- true\n- ~\n- &a *b !tag |-\n");
    assert!(painted.starts_with("<span class=\"yaml-doc\">%YAML 1.2</span>\n"));
    assert!(painted.contains("<span class=\"yaml-doc\">...</span>"));
    assert!(painted.contains("<span class=\"yaml-bool\">true</span>"));
    assert!(painted.contains("<span class=\"yaml-null\">~</span>"));
    assert!(painted.contains("<span class=\"yaml-anchor\">&amp;a</span>"));
    assert!(painted.contains("<span class=\"yaml-anchor\">*b</span>"));
    assert!(painted.contains("<span class=\"yaml-tag\">!tag</span>"));
    assert!(painted.contains("<span class=\"yaml-punct\">|-</span>"));
}

#[test]
fn numbers_need_digits_and_a_boundary() {
    assert!(html("-1.5e+3").contains("<span class=\"yaml-number\">-1.5e+3</span>"));
    assert!(html("1e").contains("<span class=\"yaml-string\">1e</span>"));
    assert!(html("trueish").contains("<span class=\"yaml-string\">trueish</span>"));
    assert!(html("'it''s'").contains("<span class=\"yaml-string\">'it'</span>"));
    assert!(html("\"a\\\"b\"").contains("<span class=\"yaml-string\">&quot;a\\&quot;b&quot;</span>"));
}

#[test]
fn lines_highlight_independently() {
    let a = "claim: ridge-line cache\n";
    let b = "season: 2026\n---\nnote: \"x\"\n";
    assert_eq!(html(&format!("{a}{b}")), format!("{}{}", html(a), html(b)));
    assert_eq!(html(""), "");
}

#[test]
fn stripped_html_is_the_source() {
    let source = "a: <b> & \"c\"\r\n# d\r";
    let mut shown = String::new();
    let rendered = html(source);
    let mut in_tag = false;
    let mut rest = rendered.as_str();
    while let Some(c) = rest.chars().next() {
        if in_tag {
            in_tag = c != '>';
            rest = &rest[c.len_utf8()..];
        } else if c == '<' {
            in_tag = true;
            rest = &rest[1..];
        } else if let Some(r) = rest.strip_prefix("&amp;") {
            shown.push('&');
            rest = r;
        } else if let Some(r) = rest.strip_prefix("&lt;") {
            shown.push('<');
            rest = r;
        } else if let Some(r) = rest.strip_prefix("&gt;") {
            shown.push('>');
            rest = r;
        } else if let Some(r) = rest.strip_prefix("&quot;") {
            shown.push('"');
            rest = r;
        } else {
            shown.push(c);
            rest = &rest[c.len_utf8()..];
        }
    }
    assert_eq!(shown, "a: <b> & \"c\"\n# d\n");
}
