use clipball::text::{chars_of, format_decimal, format_lower_hex, has_prefix, is_whitespace, text_eq, trim};

#[test]
fn trim_removes_ascii_whitespace_at_both_ends() {
    assert_eq!(trim("  a b \n"), "a b");
    assert_eq!(trim("\t\r\nx"), "x");
    assert_eq!(trim("x"), "x");
}

#[test]
fn trim_removes_unicode_whitespace() {
    assert_eq!(trim("\u{3000}文本\u{a0}"), "文本");
    assert_eq!(trim("\u{2028}\u{85}a\u{200a}"), "a");
}

#[test]
fn trim_of_blank_text_is_empty() {
    assert_eq!(trim(""), "");
    assert_eq!(trim(" \t\n\u{3000} "), "");
}

#[test]
fn trim_agrees_with_std() {
    let samples = [
        "", " ", "abc", "  abc", "abc  ", " a b c ", "\u{feff}x", "\u{1680}y\u{205f}", "\u{200b}z",
        "\u{1F517} link ", "\n\n中文\t",
    ];
    for s in samples.iter() {
        assert_eq!(trim(s), s.trim(), "sample {:?}", s);
    }
}

#[test]
fn trim_is_idempotent() {
    for s in [" a ", "\t b\u{3000}", "c"].iter() {
        let once = trim(s);
        assert_eq!(trim(&once), once);
    }
}

#[test]
fn whitespace_agrees_with_std() {
    for u in 0u32..0x3100 {
        if let Some(c) = char::from_u32(u) {
            assert_eq!(is_whitespace(c), c.is_whitespace(), "char {:x}", u);
        }
    }
}

#[test]
fn decimal_formatting() {
    assert_eq!(format_decimal(0), "0");
    assert_eq!(format_decimal(7), "7");
    assert_eq!(format_decimal(10), "10");
    assert_eq!(format_decimal(1234567890), "1234567890");
    assert_eq!(format_decimal(u64::MAX), u64::MAX.to_string());
}

#[test]
fn hex_formatting() {
    assert_eq!(format_lower_hex(0), "0");
    assert_eq!(format_lower_hex(255), "ff");
    assert_eq!(format_lower_hex(0x1a2b), "1a2b");
    assert_eq!(format_lower_hex(u64::MAX), "ffffffffffffffff");
    assert_eq!(format_lower_hex(0xdead_beef_0123), format!("{:x}", 0xdead_beef_0123u64));
}

#[test]
fn text_equality() {
    assert!(text_eq("panel", "panel"));
    assert!(!text_eq("panel", "ball"));
    assert!(!text_eq("pane", "panel"));
    assert!(text_eq("", ""));
}

#[test]
fn prefixes() {
    let v = chars_of("https://example.com");
    assert!(has_prefix(&v, "https://"));
    assert!(!has_prefix(&v, "http://"));
    assert!(has_prefix(&v, ""));
    let short = chars_of("htt");
    assert!(!has_prefix(&short, "http://"));
}

#[test]
fn chars_in_order() {
    assert_eq!(chars_of("a中🔗"), vec!['a', '中', '🔗']);
}
