use mycel::text::{contains_str, split_lines, str_lt, trim, trim_char};

#[test]
fn string_order_is_lexicographic_by_code_point() {
    assert!(str_lt("a", "b"));
    assert!(str_lt("ab", "abc"));
    assert!(!str_lt("abc", "ab"));
    assert!(!str_lt("same", "same"));
    assert!(str_lt("Z", "a"));
    assert!(str_lt("é", "😀"));
}

#[test]
fn lines_like_std() {
    assert_eq!(split_lines("a\r\nb\n\nc"), vec!["a".to_string(), "b".to_string(), "".to_string(), "c".to_string()]);
    assert_eq!(split_lines("x\n"), vec!["x".to_string()]);
    assert!(split_lines("").is_empty());
}

#[test]
fn trimming() {
    assert_eq!(trim("  a b \t"), "a b");
    assert_eq!(trim_char("\"'x'\"", '"'), "'x'");
    assert_eq!(trim_char("\"\"", '"'), "");
    assert!(contains_str("/r/target/x", "/target/"));
    assert!(!contains_str("/r/targets", "/target/"));
    assert!(contains_str("abc", ""));
}
