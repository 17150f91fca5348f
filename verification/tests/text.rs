use kemono_to_epub::text::{
    chars_of, contains_str, count_in, decimal_string, find_in, parse_unsigned_in, replace_str,
    trim_in,
};

fn trimmed(s: &str) -> String {
    trim_in(&chars_of(s)).into_iter().collect()
}

#[test]
fn replace_is_leftmost_and_non_overlapping() {
    assert_eq!(replace_str("aaa", "aa", "b"), "ba");
    assert_eq!(replace_str("a/b/c", "/", "_"), "a_b_c");
    assert_eq!(replace_str("abc", "x", "y"), "abc");
    assert_eq!(replace_str("", "x", "y"), "");
    assert_eq!(replace_str(r"a\b", "\\", ""), "ab");
}

#[test]
fn find_and_contains() {
    let s = chars_of("one/two/three");
    let slash = chars_of("/");
    assert_eq!(find_in(&s, &slash, 0), Some(3));
    assert_eq!(find_in(&s, &slash, 4), Some(7));
    assert_eq!(find_in(&s, &slash, 8), None);
    assert_eq!(find_in(&s, &slash, 100), None);
    assert!(contains_str("name.epub", ".epub"));
    assert!(!contains_str("name.epu", ".epub"));
}

#[test]
fn count_is_non_overlapping() {
    assert_eq!(count_in(&chars_of("<img<img x <img"), &chars_of("<img")), 3);
    assert_eq!(count_in(&chars_of("aaaa"), &chars_of("aa")), 2);
    assert_eq!(count_in(&chars_of(""), &chars_of("a")), 0);
}

#[test]
fn decimal_matches_to_string() {
    for n in [0usize, 7, 10, 99, 100, 65535, usize::MAX] {
        assert_eq!(decimal_string(n), n.to_string());
    }
}

#[test]
fn trim_removes_unicode_whitespace() {
    assert_eq!(trimmed("  y \n"), "y");
    assert_eq!(trimmed("\u{3000}\u{a0}x y\u{2029}"), "x y");
    assert_eq!(trimmed(" \t "), "");
    assert_eq!(trimmed("\u{200b}x"), "\u{200b}x");
    for s in ["  a b  ", "\r\nz\u{85}", "\u{1680}q\u{205f}"] {
        assert_eq!(trimmed(s), s.trim());
    }
}

#[test]
fn parse_follows_str_parse() {
    let p32 = |s: &str| parse_unsigned_in(&chars_of(s), u32::MAX as u64);
    assert_eq!(p32("42"), Some(42));
    assert_eq!(p32("+42"), Some(42));
    assert_eq!(p32("007"), Some(7));
    assert_eq!(p32("4294967295"), Some(4294967295));
    assert_eq!(p32("4294967296"), None);
    assert_eq!(p32("99999999999999999999999"), None);
    assert_eq!(p32("-1"), None);
    assert_eq!(p32("+"), None);
    assert_eq!(p32(""), None);
    assert_eq!(p32("1 2"), None);
    let p8 = |s: &str| parse_unsigned_in(&chars_of(s), u8::MAX as u64);
    assert_eq!(p8("255"), Some(255));
    assert_eq!(p8("256"), None);
    for s in ["12", "+3", "-0", "", "300", "a1"] {
        assert_eq!(p8(s).map(|v| v as u8), s.parse::<u8>().ok());
    }
}
