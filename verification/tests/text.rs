use loom::text::{
    chars_between, chars_of, find_chars, is_whitespace, parse_unsigned_decimal, skip_whitespace,
    str_eq,
};

#[test]
fn string_equality() {
    assert!(str_eq("loom", "loom"));
    assert!(!str_eq("loom", "Loom"));
    assert!(!str_eq("loom", "loo"));
    assert!(str_eq("", ""));
    assert!(str_eq("Śaq", "Śaq"));
    assert!(!str_eq("Śaq", "Saq"));
}

#[test]
fn unsigned_decimals_parse_like_from_str() {
    for text in ["0", "42", "+7", "4294967295", "007"] {
        assert_eq!(parse_unsigned_decimal(text, u32::MAX as u64), text.parse::<u32>().ok().map(u64::from));
    }
    for text in ["", "+", "-1", "4294967296", "1 ", " 1", "1a", "++1"] {
        assert_eq!(parse_unsigned_decimal(text, u32::MAX as u64), None);
        assert!(text.parse::<u32>().is_err());
    }
    assert_eq!(parse_unsigned_decimal("255", 255), Some(255));
    assert_eq!(parse_unsigned_decimal("256", 255), None);
}

#[test]
fn character_helpers() {
    let chars = chars_of("ab  \"cd\"");
    assert_eq!(chars.len(), 8);
    assert_eq!(find_chars(&chars, &vec!['"'], 0), Some(4));
    assert_eq!(find_chars(&chars, &vec!['"'], 5), Some(7));
    assert_eq!(find_chars(&chars, &vec!['x'], 0), None);
    assert_eq!(skip_whitespace(&chars, 2), 4);
    assert_eq!(skip_whitespace(&chars, 8), 8);
    assert_eq!(chars_between(&chars, 5, 7), vec!['c', 'd']);
}

#[test]
fn whitespace_matches_char_is_whitespace() {
    for c in [' ', '\t', '\n', '\r', '\u{b}', '\u{c}', '\u{85}', '\u{a0}', '\u{2003}', '\u{3000}', 'a', '0', '"', '\u{200b}'] {
        assert_eq!(is_whitespace(c), c.is_whitespace());
    }
}
