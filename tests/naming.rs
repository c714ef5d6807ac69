use cdpkit::naming::{escape_doc, needs_serde_rename, sanitize_field_name};

#[test]
fn reserved_names_get_an_underscore() {
    assert_eq!(sanitize_field_name("type"), "type_");
    assert_eq!(sanitize_field_name("Self"), "Self_");
    assert_eq!(sanitize_field_name("override"), "override_");
    assert_eq!(sanitize_field_name("frame_id"), "frame_id");
    assert_eq!(sanitize_field_name("types"), "types");
}

#[test]
fn docs_go_on_one_line() {
    assert_eq!(escape_doc("a\nb"), "a b");
    assert_eq!(escape_doc("a \nb"), "a b");
    assert_eq!(escape_doc("a    b"), "a  b");
    assert_eq!(escape_doc("plain"), "plain");
}

#[test]
fn rename_only_when_camel_case_differs() {
    assert!(!needs_serde_rename("frameId", "frame_id"));
    assert!(!needs_serde_rename("url", "url"));
    assert!(!needs_serde_rename("type", "type_"));
    assert!(needs_serde_rename("x-y", "x_y"));
    assert!(needs_serde_rename("DOMNode", "dom_node"));
    assert!(!needs_serde_rename("aB", "a_b"));
}
