use ai_dikte::text::{contains_str, join_strings, starts_with_str, str_equal, trim_str};

#[test]
fn trimming_follows_unicode_white_space() {
    assert_eq!(trim_str("  a b \t\n"), "a b");
    assert_eq!(trim_str("\u{3000}\u{a0}x\u{2028}"), "x");
    assert_eq!(trim_str("\u{200b}x"), "\u{200b}x");
    assert_eq!(trim_str("   "), "");
    assert_eq!(trim_str(""), "");
}

#[test]
fn search_and_join() {
    assert!(contains_str("xx-kde-yy", "kde"));
    assert!(contains_str("abc", ""));
    assert!(!contains_str("kd", "kde"));
    assert!(starts_with_str("Error: x", "Error:"));
    assert!(!starts_with_str("Err", "Error:"));
    assert!(str_equal("çay", "çay"));
    assert!(!str_equal("çay", "cay"));
    assert_eq!(join_strings(&vec!["a".into(), "b".into(), "c".into()], ", "), "a, b, c");
    assert_eq!(join_strings(&vec![], " "), "");
}
