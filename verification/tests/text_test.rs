use sita::text::find_from_str;
use sita::text::starts_with_str;
use sita::text::str_lt;

#[test]
fn test_find_from_str_x_first_occurrence() {
    assert_eq!(find_from_str("abcabc", "bc", 0), Some(1));
    assert_eq!(find_from_str("abcabc", "bc", 2), Some(4));
    assert_eq!(find_from_str("abcabc", "zz", 0), None);
    assert_eq!(find_from_str("abc", "abcd", 0), None);
}

#[test]
fn test_starts_with_str() {
    assert!(starts_with_str("---\nrest", "---\n"));
    assert!(!starts_with_str("--\nrest", "---\n"));
    assert!(!starts_with_str("--", "---\n"));
}

#[test]
fn test_str_lt_is_lexicographic() {
    assert!(str_lt("a.html", "b.html"));
    assert!(!str_lt("b.html", "a.html"));
    assert!(!str_lt("same", "same"));
    assert!(str_lt("ab", "abc"));
    assert!(str_lt("Z", "a"));
}
