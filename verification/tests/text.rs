use confidant::text::{
    chars_contain, decimal_text, is_digit_char, is_whitespace_char, last_nonblank_line_bounds,
    matches_at, parse_unsigned, same_text, signed_decimal_text, str_contains, to_chars, trim,
    trim_bounds,
};

#[test]
fn whitespace_agrees_with_std_on_every_char() {
    let mut code: u32 = 0;
    while code <= 0x10ffff {
        if let Some(c) = char::from_u32(code) {
            assert_eq!(is_whitespace_char(c), c.is_whitespace(), "U+{:04X}", code);
            assert_eq!(is_digit_char(c), c.is_ascii_digit(), "U+{:04X}", code);
        }
        code += 1;
    }
}

#[test]
fn trim_agrees_with_std() {
    for s in ["", "  ", " a b \r\n", "\u{3000}x\u{a0}", "no-space", "\t\n{\"ready\": true}\n", "\u{200b}x"] {
        assert_eq!(trim(s), s.trim());
    }
}

#[test]
fn trim_bounds_work_inside_a_stretch() {
    let chars: Vec<char> = "ab  cd  ef".chars().collect();
    assert_eq!(trim_bounds(&chars, 2, 8), (4, 6));
    assert_eq!(trim_bounds(&chars, 2, 4), (4, 4));
    assert_eq!(trim_bounds(&chars, 0, 10), (0, 10));
    assert_eq!(trim_bounds(&chars, 5, 5), (5, 5));
}

#[test]
fn contains_finds_substrings() {
    assert!(str_contains("import llama_cpp failed", "llama_cpp"));
    assert!(!str_contains("import llama failed", "llama_cpp"));
    assert!(str_contains("abc", ""));
    assert!(str_contains("", ""));
    assert!(!str_contains("", "a"));
    assert!(str_contains("aab", "ab"));
    assert!(str_contains("\u{e9}t\u{e9}", "t\u{e9}"));
    let hay: Vec<char> = "xxabcxx".chars().collect();
    let needle: Vec<char> = "abc".chars().collect();
    assert!(chars_contain(&hay, 0, 7, &needle));
    assert!(chars_contain(&hay, 2, 5, &needle));
    assert!(!chars_contain(&hay, 3, 7, &needle));
    assert!(!chars_contain(&hay, 0, 4, &needle));
    assert!(matches_at(&hay, 2, &needle));
    assert!(!matches_at(&hay, 1, &needle));
}

#[test]
fn to_chars_and_same_text() {
    assert_eq!(to_chars("h\u{e9}\u{1F600}"), vec!['h', '\u{e9}', '\u{1F600}']);
    assert!(same_text("abc", "abc"));
    assert!(!same_text("abc", "abd"));
    assert!(!same_text("abc", "ab"));
}

#[test]
fn last_non_blank_line_is_found_and_trimmed() {
    for (text, expected) in [
        ("", ""),
        ("\n\n", ""),
        ("one", "one"),
        ("one\n", "one"),
        ("one\ntwo", "two"),
        ("one\n  two  \r\n\n \t\n", "two"),
        ("  \none\n", "one"),
        ("a\rb\nc\r", "c"),
        ("\u{a0}x\u{a0}", "x"),
    ] {
        let chars: Vec<char> = text.chars().collect();
        let (from, to) = last_nonblank_line_bounds(&chars);
        let line: String = chars[from..to].iter().collect();
        assert_eq!(line, expected, "{:?}", text);
        let by_std = text.lines().filter(|l| !l.trim().is_empty()).last().unwrap_or("").trim();
        assert_eq!(line, by_std, "{:?}", text);
    }
}

#[test]
fn numbers_are_written_in_decimal() {
    assert_eq!(decimal_text(0), "0");
    assert_eq!(decimal_text(7), "7");
    assert_eq!(decimal_text(10), "10");
    assert_eq!(decimal_text(512), "512");
    assert_eq!(decimal_text(u64::MAX), "18446744073709551615");
    assert_eq!(signed_decimal_text(0), "0");
    assert_eq!(signed_decimal_text(-1), "-1");
    assert_eq!(signed_decimal_text(127), "127");
    assert_eq!(signed_decimal_text(i32::MIN), "-2147483648");
    assert_eq!(signed_decimal_text(i32::MAX), "2147483647");
}

#[test]
fn unsigned_numbers_are_read_back() {
    assert_eq!(parse_unsigned("0"), Some(0));
    assert_eq!(parse_unsigned("007"), Some(7));
    assert_eq!(parse_unsigned("18446744073709551615"), Some(u64::MAX));
    assert_eq!(parse_unsigned("18446744073709551616"), None);
    assert_eq!(parse_unsigned("99999999999999999999999"), None);
    assert_eq!(parse_unsigned(""), None);
    assert_eq!(parse_unsigned("-1"), None);
    assert_eq!(parse_unsigned("1.0"), None);
    assert_eq!(parse_unsigned("12a"), None);
    assert_eq!(parse_unsigned("99999999999999999999999x"), None);
    for n in [0u64, 1, 9, 10, 99, 100, 12345, u64::MAX] {
        assert_eq!(parse_unsigned(&decimal_text(n)), Some(n));
    }
}
