use model_gateway::text::{contains_text, join, same_text, strip_prefix, trim_trailing};

#[test]
fn trim_trailing_cuts_only_the_end() {
    assert_eq!(trim_trailing("a/b//", '/'), "a/b");
    assert_eq!(trim_trailing("/a/b", '/'), "/a/b");
    assert_eq!(trim_trailing("////", '/'), "");
    assert_eq!(trim_trailing("", '/'), "");
    assert_eq!(trim_trailing("abc", '/'), "abc");
    assert_eq!(trim_trailing("é/ü/", '/'), "é/ü");
    assert_eq!(trim_trailing("xx", 'x'), "");
}

#[test]
fn strip_prefix_wants_the_whole_prefix() {
    assert_eq!(strip_prefix("Bearer abc", "Bearer "), Some("abc"));
    assert_eq!(strip_prefix("Bearer ", "Bearer "), Some(""));
    assert_eq!(strip_prefix("Bearer", "Bearer "), None);
    assert_eq!(strip_prefix("bearer abc", "Bearer "), None);
    assert_eq!(strip_prefix(" Bearer abc", "Bearer "), None);
    assert_eq!(strip_prefix("", "Bearer "), None);
    assert_eq!(strip_prefix("abc", ""), Some("abc"));
    assert_eq!(strip_prefix("Bearer clé", "Bearer "), Some("clé"));
    assert_eq!(strip_prefix("éé-rest", "éé"), Some("-rest"));
}

#[test]
fn join_concatenates() {
    assert_eq!(join("a", "b"), "ab");
    assert_eq!(join("", "b"), "b");
    assert_eq!(join("a", ""), "a");
}

#[test]
fn same_text_is_exact() {
    assert!(same_text("abc", "abc"));
    assert!(same_text("", ""));
    assert!(!same_text("abc", "abd"));
    assert!(!same_text("abc", "ab"));
    assert!(!same_text("abc", "ABC"));
}

#[test]
fn contains_text_finds_whole_strings() {
    let list = vec!["m1".to_string(), "m2".to_string()];
    assert!(contains_text(&list, "m1"));
    assert!(contains_text(&list, "m2"));
    assert!(!contains_text(&list, "m"));
    assert!(!contains_text(&list, "m12"));
    assert!(!contains_text(&Vec::new(), "m1"));
}
