use rss_daily::text::{
    before_first, chars_of, contains, decimal_string, ends_with, join, prefix_bytes, replace_char,
    replace_str, split, str_eq, trim,
};

#[test]
fn decimal_writes_digits() {
    assert_eq!(decimal_string(0), "0");
    assert_eq!(decimal_string(7), "7");
    assert_eq!(decimal_string(10), "10");
    assert_eq!(decimal_string(12345), "12345");
    assert_eq!(decimal_string(u64::MAX), u64::MAX.to_string());
}

#[test]
fn replace_char_turns_slashes() {
    assert_eq!(replace_char("owner/repo/x", '/', '_'), "owner_repo_x");
    assert_eq!(replace_char("plain", '/', '_'), "plain");
}

#[test]
fn join_uses_separator() {
    let v = vec!["a".to_string(), "b".to_string(), "c".to_string()];
    assert_eq!(join(&v, ", "), "a, b, c");
    assert_eq!(join(&vec![], ", "), "");
    assert_eq!(join(&vec!["x".to_string()], "-"), "x");
}

#[test]
fn ends_with_and_contains() {
    assert!(ends_with("2024-01-02_trending.json", ".json"));
    assert!(!ends_with("notes.txt", ".json"));
    assert!(!ends_with("a", "abc"));
    assert!(contains("rust-backend", "backend"));
    assert!(contains("abc", ""));
    assert!(!contains("frontend", "backend"));
}

#[test]
fn before_first_and_split() {
    assert_eq!(before_first("2024-01-02_trending.json", '_'), "2024-01-02");
    assert_eq!(before_first("nounderscore", '_'), "nounderscore");
    assert_eq!(split("2024-01-02", '-'), vec!["2024", "01", "02"]);
    assert_eq!(split("", '-'), vec![""]);
    assert_eq!(split("a--b", '-'), vec!["a", "", "b"]);
}

#[test]
fn trim_and_equality() {
    assert_eq!(trim("  hello world \n"), "hello world");
    assert_eq!(trim("\u{3000}x\u{00a0}"), "x");
    assert_eq!(trim("   "), "");
    assert!(str_eq("zh", "zh"));
    assert!(!str_eq("zh", "en"));
    assert_eq!(chars_of("héllo"), vec!['h', 'é', 'l', 'l', 'o']);
}

#[test]
fn prefix_bytes_cuts_at_byte_offset() {
    assert_eq!(prefix_bytes("abcdef", 3), "abc");
    assert_eq!(prefix_bytes("中文字", 6), "中文");
}

#[test]
fn replace_str_is_left_to_right() {
    assert_eq!(replace_str("aaa", "aa", "b"), "ba");
    assert_eq!(replace_str("x](d_1 y](d_2", "](d_", "](p/d_"), "x](p/d_1 y](p/d_2");
    assert_eq!(replace_str("nothing", "zz", "y"), "nothing");
}
