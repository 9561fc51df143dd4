use img_proxy::text::{
    char_is_whitespace, chars_of, ends_with, lex_le_chars, replace, starts_with, str_eq, trim,
    trim_end_matches_char, u64_to_decimal,
};

#[test]
fn chars_round_trip() {
    let v = chars_of("héllo");
    assert_eq!(v, vec!['h', 'é', 'l', 'l', 'o']);
    assert_eq!(replace("héllo", "l", "L"), "héLLo");
}

#[test]
fn string_equality() {
    assert!(str_eq("abc", "abc"));
    assert!(!str_eq("abc", "abd"));
    assert!(!str_eq("abc", "ab"));
    assert!(str_eq("", ""));
}

#[test]
fn prefixes_and_suffixes() {
    assert!(starts_with("https://x", "https://"));
    assert!(!starts_with("http", "https://"));
    assert!(starts_with("anything", ""));
    assert!(ends_with("cat.png", ".png"));
    assert!(!ends_with("cat.png", ".gif"));
    assert!(!ends_with("g", ".gif"));
}

#[test]
fn trimming_matches_std() {
    for s in ["  a b  ", "\t\nx\u{3000}", "", "   ", "\u{85}y\u{a0}", "z"] {
        assert_eq!(trim(s), s.trim());
    }
}

#[test]
fn trailing_char_removal() {
    assert_eq!(trim_end_matches_char("/a/b///", '/'), "/a/b");
    assert_eq!(trim_end_matches_char("///", '/'), "");
    assert_eq!(trim_end_matches_char("abc", '/'), "abc");
}

#[test]
fn replacement_matches_std() {
    let cases = [
        ("a __KEY__ b __KEY__", "__KEY__", "k"),
        ("__K__K__", "__K", "x"),
        ("aaaa", "aa", "b"),
        ("none here", "zz", "q"),
        ("", "x", "y"),
    ];
    for (s, p, r) in cases {
        assert_eq!(replace(s, p, r), s.replace(p, r));
    }
}

#[test]
fn decimal_formatting() {
    assert_eq!(u64_to_decimal(0), "0");
    assert_eq!(u64_to_decimal(7), "7");
    assert_eq!(u64_to_decimal(1234567890), "1234567890");
    assert_eq!(u64_to_decimal(u64::MAX), u64::MAX.to_string());
}

#[test]
fn lexicographic_order_matches_string_order() {
    let words = ["", "a", "ab", "b", "B", "é", "z", "aa", "a-b", "a_b"];
    for a in words {
        for b in words {
            let expected = a.to_string() <= b.to_string();
            assert_eq!(lex_le_chars(&chars_of(a), &chars_of(b)), expected, "{a} vs {b}");
        }
    }
}

#[test]
fn whitespace_set_matches_std() {
    for n in 0u32..=0x10FFFF {
        if let Some(c) = char::from_u32(n) {
            assert_eq!(char_is_whitespace(c), c.is_whitespace(), "U+{n:04X}");
        }
    }
}
