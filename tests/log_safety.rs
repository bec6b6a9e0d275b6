use std::path::Path;

use collector::log_safety::{
    redact_components, redact_path_text, redact_parts, redact_parts_str, redact_path, redact_path_str, summarize_bytes,
    summarize_text_len,
};

#[test]
fn text_len_counts_characters() {
    assert_eq!(summarize_text_len("héllo"), 5);
    assert_eq!(summarize_text_len(""), 0);
}

#[test]
fn byte_sizes() {
    assert_eq!(summarize_bytes(0), "0B");
    assert_eq!(summarize_bytes(1023), "1023B");
    assert_eq!(summarize_bytes(1024), "1KB");
    assert_eq!(summarize_bytes(1025), "2KB");
    assert_eq!(summarize_bytes(usize::MAX), format!("{}KB", usize::MAX / 1024 + 1));
}

#[test]
fn path_redaction() {
    assert_eq!(redact_path_str("/Users/me/Vault/Notes/a.md"), ".../Notes/a.md");
    assert_eq!(redact_path_str("C:\\x\\y"), ".../x/y");
    assert_eq!(redact_path_str("//"), "<unknown>");
    assert_eq!(redact_path_str("one"), "one");
    assert_eq!(redact_path(Path::new("/a/b/../c.txt")), ".../b/c.txt");
    assert_eq!(redact_path(Path::new("/")), "<unknown>");
    assert_eq!(redact_parts(&["x".to_string()]), "x");
    assert_eq!(redact_parts_str(&["p", "q", "r"]), ".../q/r");
}

#[test]
fn path_redaction_keeps_only_last_two_normal_components() {
    assert_eq!(redact_path_text("/Users/alice/Vault/Notes/a.md"), ".../Notes/a.md");
    assert_eq!(redact_path_text("./x/../y"), ".../x/y");
    assert_eq!(redact_path_text(""), "<unknown>");
    let comps = vec![None, Some("a".to_string()), None, Some("b".to_string()), Some("c".to_string())];
    assert_eq!(redact_components(&comps), ".../b/c");
}
