use zktls::text::{
    chars_of, concat_text, find, piece_after, piece_before, same_text, starts_with, string_of,
    to_ascii_lowercase, to_ascii_uppercase, trim, trim_char,
};

#[test]
fn trim_removes_unicode_white_space_at_both_ends() {
    assert_eq!(trim("  abc \t\n"), "abc");
    assert_eq!(trim("\u{3000}a b\u{a0}"), "a b");
    assert_eq!(trim("   "), "");
    assert_eq!(trim(""), "");
    assert_eq!(trim("x"), "x");
}

#[test]
fn trim_char_removes_every_quote_at_both_ends() {
    assert_eq!(trim_char("\"BTCUSDT\"", '"'), "BTCUSDT");
    assert_eq!(trim_char("\"\"a\"b\"\"", '"'), "a\"b");
    assert_eq!(trim_char("\"\"\"", '"'), "");
    assert_eq!(trim_char("plain", '"'), "plain");
}

#[test]
fn ascii_case_mapping_leaves_other_characters() {
    assert_eq!(to_ascii_uppercase("btc-é1"), "BTC-é1");
    assert_eq!(to_ascii_lowercase("0xABCdef"), "0xabcdef");
}

#[test]
fn prefixes_and_searches() {
    assert!(starts_with("https://api.binance.com/api/v3/account?x=1", "https://api.binance.com"));
    assert!(!starts_with("http", "https"));
    assert!(starts_with("abc", ""));
    let s = chars_of("a&b&c");
    let amp = chars_of("&");
    assert_eq!(find(&s, &amp), Some(1));
    assert_eq!(find(&s, &chars_of("z")), None);
    assert_eq!(string_of(&piece_before(&s, &amp)), "a");
    assert_eq!(string_of(&piece_after(&s, &amp).unwrap()), "b&c");
    assert!(piece_after(&s, &chars_of("z")).is_none());
    assert_eq!(string_of(&piece_before(&s, &chars_of("z"))), "a&b&c");
}

#[test]
fn equality_and_concatenation() {
    assert!(same_text("abc", "abc"));
    assert!(!same_text("abc", "abd"));
    assert!(!same_text("abc", "ab"));
    assert_eq!(concat_text("ab", "cd"), "abcd");
}

#[test]
fn white_space_is_what_std_trims() {
    for code in 0u32..0x3100 {
        if let Some(c) = char::from_u32(code) {
            let s = format!("{}x{}", c, c);
            assert_eq!(trim(&s), s.trim(), "code point {:x}", code);
        }
    }
}
