use warpinator_lib::text::{contains_double_dot, same_text, strip_line_breaks, to_decimal};

#[test]
fn decimals_have_no_leading_zeros() {
    assert_eq!(to_decimal(0), "0");
    assert_eq!(to_decimal(9), "9");
    assert_eq!(to_decimal(10), "10");
    assert_eq!(to_decimal(42001), "42001");
    assert_eq!(to_decimal(12345), "12345");
    assert_eq!(to_decimal(6789), "6789");
    assert_eq!(to_decimal(65535), "65535");
}

#[test]
fn line_breaks_are_taken_out() {
    assert_eq!(strip_line_breaks(""), "");
    assert_eq!(strip_line_breaks("\r\n\n\r"), "");
    assert_eq!(strip_line_breaks("ab\ncd\r\nef\n"), "abcdef");
    assert_eq!(strip_line_breaks("a b\tc"), "a b\tc");
    assert_eq!(strip_line_breaks("ä\nö"), "äö");
}

#[test]
fn double_dots_are_found_anywhere() {
    assert!(contains_double_dot(".."));
    assert!(contains_double_dot("../a"));
    assert!(contains_double_dot("a/../b"));
    assert!(contains_double_dot("a.."));
    assert!(contains_double_dot("a...b"));
    assert!(!contains_double_dot(""));
    assert!(!contains_double_dot("."));
    assert!(!contains_double_dot(".a.b."));
    assert!(!contains_double_dot("./.a"));
}

#[test]
fn texts_are_compared_by_their_characters() {
    assert!(same_text("", ""));
    assert!(same_text("abc", "abc"));
    assert!(!same_text("abc", "abd"));
    assert!(!same_text("abc", "ab"));
    assert!(!same_text("a", "A"));
}
