use moq_boy::text::{
    chars_of, decimal_text, join_texts, joined, lower_hex_text, parse_size, same_text, split_words,
    strip_prefix, text_of, trimmed, whitespace,
};

#[test]
fn words_are_split_at_any_whitespace() {
    assert_eq!(split_words("  GET\t/path \u{2003} HTTP/1.1\r\n"), vec!["GET", "/path", "HTTP/1.1"]);
    assert!(split_words(" \t\r\n").is_empty());
    assert!(split_words("").is_empty());
}

#[test]
fn words_agree_with_the_standard_library() {
    for s in ["a b  c", "\u{a0}x\u{85}y", " lead", "trail ", "\u{3000}", "one", "\u{200b}z"] {
        let expected: Vec<String> = s.split_whitespace().map(|w| w.to_string()).collect();
        assert_eq!(split_words(s), expected);
        assert_eq!(trimmed(s), s.trim());
    }
}

#[test]
fn whitespace_agrees_with_the_standard_library() {
    for c in '\0'..='\u{ffff}' {
        assert_eq!(whitespace(c), c.is_whitespace(), "{:?}", c);
    }
}

#[test]
fn numbers_are_written_without_leading_zeros() {
    for n in [0u64, 7, 10, 99, 100, 12345, u64::MAX] {
        assert_eq!(decimal_text(n), n.to_string());
    }
    for n in [0u128, 9, 10, 15, 16, 255, 256, u128::MAX] {
        assert_eq!(lower_hex_text(n), format!("{:x}", n));
    }
}

#[test]
fn sizes_are_parsed_like_numbers() {
    for s in ["0", "42", "+7", "", "+", "-1", "1a", " 1", "18446744073709551615", "18446744073709551616", "007", "++1"] {
        assert_eq!(parse_size(s), s.parse::<usize>().ok(), "{:?}", s);
    }
}

#[test]
fn texts_are_joined_and_taken_apart() {
    assert_eq!(joined("ab", "cd"), "abcd");
    assert_eq!(join_texts(&vec!["a".to_string(), "b".to_string(), "c".to_string()], ", "), "a, b, c");
    assert_eq!(join_texts(&vec!["a".to_string()], ", "), "a");
    assert_eq!(join_texts(&vec![], ", "), "");
    assert_eq!(strip_prefix("/webrtc/ice/x", "/webrtc/ice/"), Some("x".to_string()));
    assert_eq!(strip_prefix("/webrtc/ice", "/webrtc/ice/"), None);
    assert_eq!(strip_prefix("abc", ""), Some("abc".to_string()));
    assert!(same_text("\u{e9}", "\u{e9}"));
    assert!(!same_text("a", "A"));
    assert_eq!(text_of(&chars_of("h\u{e9}llo"), 1, 3), "\u{e9}l");
}
