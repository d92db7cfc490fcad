use synap::text::{extract_tags, is_valid_ulid_prefix};

#[test]
fn capture_test_extract_tags() {
    let content = "This is a test #rust #programming with multiple tags";
    let tags = extract_tags(content);
    assert_eq!(tags.len(), 2);
    assert!(tags.contains(&"rust".to_string()));
    assert!(tags.contains(&"programming".to_string()));
}

#[test]
fn test_extract_no_tags() {
    let content = "This is a test without tags";
    let tags = extract_tags(content);
    assert_eq!(tags.len(), 0);
}

#[test]
fn test_extract_empty_tag() {
    let content = "This is a test # with empty tag";
    let tags = extract_tags(content);
    assert_eq!(tags.len(), 1);
    assert_eq!(tags[0], "");
}

#[test]
fn reply_test_extract_tags() {
    let content = "This is a test #rust #programming with multiple tags";
    let tags = extract_tags(content);
    assert_eq!(tags.len(), 2);
    assert!(tags.contains(&"rust".to_string()));
    assert!(tags.contains(&"programming".to_string()));
}

#[test]
fn extract_tags_keeps_order_and_inner_hashes() {
    let tags = extract_tags("#b a#c #a#b\t#x\n##y");
    assert_eq!(tags, vec!["b", "a#b", "x", "#y"]);
}

#[test]
fn extract_tags_splits_on_unicode_white_space() {
    let tags = extract_tags("#one\u{3000}#two\u{a0}#three");
    assert_eq!(tags, vec!["one", "two", "three"]);
}

#[test]
fn extract_tags_of_empty_and_blank_content() {
    assert!(extract_tags("").is_empty());
    assert!(extract_tags("   \t\n").is_empty());
}

#[test]
fn extract_tags_non_ascii_tag() {
    assert_eq!(extract_tags("想法 #架构 done"), vec!["架构"]);
}

#[test]
fn ulid_prefix_accepts_base32_prefixes() {
    assert!(is_valid_ulid_prefix("01H"));
    assert!(is_valid_ulid_prefix("01KJYFFB4Z"));
    assert!(is_valid_ulid_prefix("0123456789ABCDEFGHJKMNPQRS"));
}

#[test]
fn ulid_prefix_rejects_bad_lengths_and_letters() {
    assert!(!is_valid_ulid_prefix("01"));
    assert!(!is_valid_ulid_prefix("0123456789ABCDEFGHJKMNPQRST"));
    assert!(!is_valid_ulid_prefix("01I"));
    assert!(!is_valid_ulid_prefix("0lo"));
    assert!(!is_valid_ulid_prefix("abu"));
    assert!(!is_valid_ulid_prefix("ab-"));
    assert!(!is_valid_ulid_prefix("abé"));
    assert!(!is_valid_ulid_prefix("hello world"));
}
