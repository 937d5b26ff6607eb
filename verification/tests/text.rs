use streamcore_rust_sdk::text::{
    concatenate, has_prefix, is_white_space, join, parse_u64, render_json_string, render_u64,
    same_text, split_words, without_prefix,
};

#[test]
fn white_space_is_that_of_unicode() {
    for c in '\0'..=char::MAX {
        assert_eq!(is_white_space(c), c.is_whitespace(), "{:?}", c);
    }
}

#[test]
fn words_are_those_of_std() {
    for s in ["", " ", "a", " a  b\tc\u{3000}d\r\n", "\u{a0}x\u{85}", "один два"] {
        let expected: Vec<String> = s.split_whitespace().map(|w| w.to_string()).collect();
        assert_eq!(split_words(s), expected);
    }
}

#[test]
fn numbers_parse_as_in_std() {
    for s in [
        "", "+", "-", "0", "00", "+0", "-0", "7", "+7", "++7", "7+", " 7", "7 ", "007", "a", "1_0",
        "18446744073709551615", "18446744073709551616", "99999999999999999999999", "٣",
        "+18446744073709551615", "000000000000000000000000000001",
    ] {
        assert_eq!(parse_u64(s), s.parse::<u64>().ok(), "{:?}", s);
    }
}

#[test]
fn numbers_render_and_parse_back() {
    for n in [0u64, 1, 9, 10, 99, 100, 12345, u64::MAX - 1, u64::MAX] {
        assert_eq!(render_u64(n), format!("{}", n));
        assert_eq!(parse_u64(&render_u64(n)), Some(n));
    }
}

#[test]
fn json_strings_are_those_of_serde_json() {
    assert_eq!(render_json_string(""), "\"\"");
    assert_eq!(
        render_json_string("a\"\\/\u{8}\t\n\u{c}\r\u{0}\u{1f}\u{7f}ä"),
        "\"a\\\"\\\\/\\b\\t\\n\\f\\r\\u0000\\u001f\u{7f}ä\""
    );
    for c in '\0'..=char::MAX {
        let text = c.to_string();
        assert_eq!(
            render_json_string(&text),
            serde_json::Value::from(text.as_str()).to_string()
        );
    }
}

#[test]
fn prefixes_and_joins() {
    assert!(same_text("äb", "äb"));
    assert!(!same_text("a", "ab"));
    assert!(has_prefix("äbc", "äb"));
    assert!(!has_prefix("ä", "äb"));
    assert_eq!(without_prefix("a=mid:0", "a=mid:"), Some("0".to_string()));
    assert_eq!(without_prefix("a=mid:0", "m="), None);
    assert_eq!(concatenate("ü", "x"), "üx");
    assert_eq!(join(&vec![], ", "), "");
    let items = vec!["a".to_string(), "".to_string(), "c".to_string()];
    assert_eq!(join(&items, ", "), "a, , c");
    let words = split_words(" x  y ");
    assert_eq!(split_words(&join(&words, " ")), words);
}
