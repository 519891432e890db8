use wasi_gateway::text::{
    decimal, join2, join3, same_text, starts_with, trim, trim_trailing, white_space,
};

#[test]
fn numbers_are_written_in_decimal() {
    assert_eq!(decimal(0), "0");
    assert_eq!(decimal(7), "7");
    assert_eq!(decimal(10), "10");
    assert_eq!(decimal(404), "404");
    assert_eq!(decimal(65535), "65535");
    assert_eq!(decimal(u64::MAX), "18446744073709551615");
}

#[test]
fn decimal_agrees_with_the_standard_formatting() {
    for n in (0..100_000u64).step_by(37) {
        assert_eq!(decimal(n), n.to_string());
    }
}

#[test]
fn texts_are_joined_in_order() {
    assert_eq!(join2("", ""), "");
    assert_eq!(join2("a", "b"), "ab");
    assert_eq!(join3("dns: ", "no IPs", " found"), "dns: no IPs found");
    assert_eq!(join3("\u{e9}", "", "\u{20ac}"), "\u{e9}\u{20ac}");
}

#[test]
fn texts_are_compared_character_by_character() {
    assert!(same_text("", ""));
    assert!(same_text("example.com", "example.com"));
    assert!(!same_text("example.com", "example.org"));
    assert!(!same_text("example.com", "example.co"));
    assert!(!same_text("a", "A"));
    assert!(same_text("\u{e9}", "\u{e9}"));
    assert!(!same_text("\u{e9}", "e\u{301}"));
}

#[test]
fn prefixes_are_found() {
    assert!(starts_with("/health", "/health"));
    assert!(starts_with("/healthz", "/health"));
    assert!(starts_with("anything", ""));
    assert!(starts_with("", ""));
    assert!(!starts_with("/healt", "/health"));
    assert!(!starts_with("", "/"));
    assert!(!starts_with("x/health", "/health"));
}

#[test]
fn a_trailing_run_of_one_character_is_cut() {
    assert_eq!(trim_trailing("abc\0\0", '\0'), "abc");
    assert_eq!(trim_trailing("\0a\0b", '\0'), "\0a\0b");
    assert_eq!(trim_trailing("\0\0", '\0'), "");
    assert_eq!(trim_trailing("", '\0'), "");
    assert_eq!(trim_trailing("xyyy", 'y'), "x");
    assert_eq!(trim_trailing("\u{20ac}\u{e9}\u{e9}", '\u{e9}'), "\u{20ac}");
}

#[test]
fn trailing_cut_agrees_with_the_standard_one() {
    for text in ["", "\0", "a\0", "\0a", "a\0b\0\0", "\u{1f600}\0", "\0\0\0"] {
        assert_eq!(trim_trailing(text, '\0'), text.trim_end_matches('\0'));
    }
}

#[test]
fn white_space_is_cut_at_both_ends() {
    assert_eq!(trim("  a b  "), "a b");
    assert_eq!(trim("\n\ta\r\n"), "a");
    assert_eq!(trim("a"), "a");
    assert_eq!(trim(""), "");
    assert_eq!(trim(" \t "), "");
    assert_eq!(trim("\u{3000}x\u{a0}"), "x");
}

#[test]
fn white_space_is_what_the_standard_library_says() {
    for code in 0..=0x3100u32 {
        if let Some(c) = char::from_u32(code) {
            assert_eq!(white_space(c), c.is_whitespace());
        }
    }
    for c in ['\u{feff}', '\u{e000}', '\u{1f600}', '\u{10ffff}'] {
        assert_eq!(white_space(c), c.is_whitespace());
    }
}
