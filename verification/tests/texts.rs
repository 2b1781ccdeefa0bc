use thumbor::text::{
    chars_of, decimal, joined, parse_checkbox, parse_optional_string, parse_optional_u32,
    parse_unsigned, same_text, trim, white_space, BadRequest,
};

#[test]
fn white_space_is_that_of_unicode() {
    for code in 0..=0x10ffffu32 {
        if let Some(c) = char::from_u32(code) {
            assert_eq!(white_space(c), c.is_whitespace(), "{code:x}");
        }
    }
}

#[test]
fn trim_agrees_with_str() {
    for text in ["", " ", "a", " a", "a ", "\t a b \r\n", "\u{2003}é\u{3000}", "a\u{200b}", "\u{85}x"] {
        assert_eq!(trim(text), text.trim());
        assert_eq!(trim(trim(text)), trim(text));
    }
}

#[test]
fn optional_string() {
    assert_eq!(parse_optional_string("  hello world "), Some("hello world".to_string()));
    assert_eq!(parse_optional_string(""), None);
    assert_eq!(parse_optional_string(" \t\n"), None);
    assert_eq!(parse_optional_string("é"), Some("é".to_string()));
}

#[test]
fn optional_number() {
    assert_eq!(parse_optional_u32(""), Ok(None));
    assert_eq!(parse_optional_u32("   "), Ok(None));
    assert_eq!(parse_optional_u32("0"), Ok(Some(0)));
    assert_eq!(parse_optional_u32(" 42 "), Ok(Some(42)));
    assert_eq!(parse_optional_u32("+5"), Ok(Some(5)));
    assert_eq!(parse_optional_u32("007"), Ok(Some(7)));
    assert_eq!(parse_optional_u32("4294967295"), Ok(Some(u32::MAX)));
    for text in ["4294967296", "-1", "-0", "+", "++1", "1.5", "1 2", "x", "0x10", "٣", "99999999999999999999"] {
        assert_eq!(parse_optional_u32(text), Err(BadRequest), "{text}");
    }
}

#[test]
fn unsigned_agrees_with_parse() {
    let texts = [
        "", "+", "-", "+0", "-0", "0", "00000000000000000001", "4294967295", "4294967296", "4294967300",
        "42949672950", " 1", "1 ", "1_000", "12a", "a12", "+12", "1+2", "９",
    ];
    for text in texts {
        assert_eq!(parse_unsigned(text), text.parse::<u32>().ok(), "{text}");
    }
}

#[test]
fn number_is_read_back() {
    for n in [0u32, 1, 9, 10, 99, 100, 65535, 1000000007, u32::MAX] {
        assert_eq!(parse_optional_u32(&decimal(n as u64)), Ok(Some(n)));
    }
}

#[test]
fn checkbox() {
    for text in ["true", "1", "on", "yes", " on ", "\tyes\n"] {
        assert!(parse_checkbox(text), "{text}");
    }
    for text in ["", " ", "false", "0", "off", "no", "True", "ON", "11", "tru"] {
        assert!(!parse_checkbox(text), "{text}");
    }
}

#[test]
fn decimal_digits() {
    for n in [0u64, 7, 10, 10485760, u64::MAX] {
        assert_eq!(decimal(n), n.to_string());
    }
}

#[test]
fn texts_are_compared_and_joined() {
    assert!(same_text("image", "image"));
    assert!(!same_text("image", "images"));
    assert!(!same_text("imago", "image"));
    assert!(same_text("", ""));
    assert_eq!(joined("a", "é"), "aé");
    assert_eq!(chars_of("aé"), vec!['a', 'é']);
}
