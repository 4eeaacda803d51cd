use celguard::text::{chars_of, lower, string_from_chars, to_ascii_lower, trim, is_white_space};

#[test]
fn trim_removes_unicode_white_space() {
    assert_eq!(trim("  a b\t\n"), "a b");
    assert_eq!(trim("\u{3000}x\u{a0}"), "x");
    assert_eq!(trim("   "), "");
    assert_eq!(trim(""), "");
    assert_eq!(trim(&trim(" q ")), trim(" q "));
    for c in ['\t', '\n', ' ', '\u{85}', '\u{2028}', '\u{205f}'] {
        assert_eq!(is_white_space(c), c.is_whitespace());
    }
    assert!(!is_white_space('x') && !is_white_space('\u{200b}'));
}

#[test]
fn lowercasing() {
    assert_eq!(to_ascii_lower("User-Agent ÄÖ"), "user-agent ÄÖ");
    assert_eq!(lower("HeLLo ÄÖ"), "hello äö");
}

#[test]
fn chars_round_trip() {
    let v = chars_of("añb");
    assert_eq!(v, vec!['a', 'ñ', 'b']);
    assert_eq!(string_from_chars(&v), "añb");
}
