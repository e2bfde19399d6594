//! Client names mapped to host faces or identicons.

use req_engine::services::client_host::{hue_of, initials_from, recognize};

#[test]
fn maps_known_aliases() {
    assert!(recognize("cursor", None).known);
    assert_eq!(recognize("Cursor", None).key, "cursor");
    assert_eq!(recognize("grok-build", None).key, "grok");
    assert_eq!(recognize("openai-codex", None).key, "codex");
    assert_eq!(recognize("kimi-code", None).key, "kimi");
    assert_eq!(recognize("antigravity", None).key, "antigravity");
}

#[test]
fn unknown_gets_identicon() {
    let f = recognize("seat-check", None);
    assert!(!f.known);
    assert_eq!(f.key, "unknown");
    assert_eq!(f.initials, "SC");
    assert_eq!(f.label, "seat-check");
}

#[test]
fn anti_alone_is_not_antigravity() {
    let g = recognize("my-anti-plugin", None);
    assert!(!g.known, "bare 'anti' must not map to Antigravity");
}

#[test]
fn known_face_carries_table_row() {
    let f = recognize("  Cursor  ", None);
    assert_eq!(f.key, "cursor");
    assert_eq!(f.label, "Cursor");
    assert_eq!(f.initials, "CU");
    assert_eq!(f.hue, 220);
    let v = recognize("Visual Studio Code", None);
    assert_eq!(v.key, "vscode");
    assert_eq!(v.label, "VS Code");
    assert_eq!(v.initials, "VC");
    assert_eq!(v.hue, 210);
}

#[test]
fn title_takes_part_in_matching_and_label() {
    let f = recognize("helper", Some("Zed Editor"));
    assert_eq!(f.key, "zed");
    let g = recognize("seat-check", Some("  My Tool "));
    assert!(!g.known);
    assert_eq!(g.label, "My Tool");
    assert_eq!(g.initials, "MT");
}

#[test]
fn identicon_hue_is_fnv1a_of_compact_text() {
    assert_eq!(recognize("seat-check", None).hue, 120);
    assert_eq!(hue_of("seatcheck"), 120);
    assert_eq!(hue_of(""), 61);
    assert_eq!(recognize("my-anti-plugin", None).hue, 20);
    let blank = recognize("   ", None);
    assert_eq!(blank.label, "MCP");
    assert_eq!(blank.initials, "MC");
    assert_eq!(blank.hue, 61);
}

#[test]
fn initials_rules() {
    assert_eq!(initials_from("seat-check"), "SC");
    assert_eq!(initials_from("cline"), "CL");
    assert_eq!(initials_from("x"), "X");
    assert_eq!(initials_from("--"), "MCP");
    assert_eq!(initials_from(""), "MCP");
}
