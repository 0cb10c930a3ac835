use zher_transfer::text::{
    append_decimal, blank, chars_of, contains, decimal_string, matches_at, order_of, parse_u64,
    same_text, starts_with, whitespace, TextOrder,
};

fn parse(text: &str) -> Option<u64> {
    let chars = chars_of(text);
    parse_u64(&chars, 0, chars.len())
}

#[test]
fn chars_of_keeps_every_character() {
    assert_eq!(chars_of("aé😀"), vec!['a', 'é', '😀']);
    assert_eq!(chars_of(""), Vec::<char>::new());
}

#[test]
fn decimal_string_writes_numbers() {
    assert_eq!(decimal_string(0), "0");
    assert_eq!(decimal_string(7), "7");
    assert_eq!(decimal_string(10), "10");
    assert_eq!(decimal_string(4836), "4836");
    assert_eq!(decimal_string(u64::MAX as u128), "18446744073709551615");
    assert_eq!(decimal_string(u128::MAX), "340282366920938463463374607431768211455");
}

#[test]
fn append_decimal_keeps_what_was_there() {
    let mut s = String::from("bytes=");
    append_decimal(&mut s, 1024);
    assert_eq!(s, "bytes=1024");
}

#[test]
fn parse_u64_reads_plain_numbers() {
    assert_eq!(parse("0"), Some(0));
    assert_eq!(parse("100"), Some(100));
    assert_eq!(parse("007"), Some(7));
    assert_eq!(parse("18446744073709551615"), Some(u64::MAX));
}

#[test]
fn parse_u64_takes_a_leading_plus() {
    assert_eq!(parse("+5"), Some(5));
    assert_eq!(parse("+"), None);
    assert_eq!(parse("++5"), None);
}

#[test]
fn parse_u64_rejects_what_is_no_number() {
    assert_eq!(parse(""), None);
    assert_eq!(parse("-1"), None);
    assert_eq!(parse("12a"), None);
    assert_eq!(parse(" 12"), None);
    assert_eq!(parse("12 "), None);
    assert_eq!(parse("*"), None);
    assert_eq!(parse("١٢"), None);
}

#[test]
fn parse_u64_rejects_what_does_not_fit() {
    assert_eq!(parse("18446744073709551616"), None);
    assert_eq!(parse("99999999999999999999999"), None);
    assert_eq!(parse("184467440737095516150"), None);
}

#[test]
fn parse_u64_agrees_with_the_standard_parser() {
    for text in ["0", "+0", "42", "+", "", "-0", "4x", "18446744073709551615", "18446744073709551616"] {
        assert_eq!(parse(text), text.parse::<u64>().ok(), "{}", text);
    }
}

#[test]
fn parse_u64_reads_a_window() {
    let chars = chars_of("bytes 0-99/1234/x");
    assert_eq!(parse_u64(&chars, 11, 15), Some(1234));
    assert_eq!(parse_u64(&chars, 6, 7), Some(0));
    assert_eq!(parse_u64(&chars, 6, 10), None);
    assert_eq!(parse_u64(&chars, 3, 3), None);
}

#[test]
fn parse_undoes_decimal_string() {
    for n in [0u64, 1, 9, 10, 99, 100, 123456789, u64::MAX] {
        assert_eq!(parse(&decimal_string(n as u128)), Some(n));
    }
}

#[test]
fn substring_search_finds_patterns() {
    let text = chars_of("softap0");
    assert!(contains(&text, &chars_of("ap")));
    assert!(contains(&text, &chars_of("softap0")));
    assert!(contains(&text, &chars_of("")));
    assert!(!contains(&text, &chars_of("wlan")));
    assert!(!contains(&text, &chars_of("softap01")));
    assert!(contains(&chars_of(""), &chars_of("")));
    assert!(!contains(&chars_of(""), &chars_of("a")));
}

#[test]
fn prefix_test_looks_at_the_start_only() {
    let text = chars_of("wlan0");
    assert!(starts_with(&text, &chars_of("wlan")));
    assert!(starts_with(&text, &chars_of("")));
    assert!(!starts_with(&text, &chars_of("lan")));
    assert!(!starts_with(&text, &chars_of("wlan00")));
}

#[test]
fn matches_at_checks_bounds() {
    let text = chars_of("abcabc");
    assert!(matches_at(&text, &chars_of("abc"), 0));
    assert!(matches_at(&text, &chars_of("abc"), 3));
    assert!(!matches_at(&text, &chars_of("abc"), 4));
    assert!(!matches_at(&text, &chars_of("abc"), 7));
    assert!(matches_at(&text, &chars_of(""), 6));
    assert!(!matches_at(&text, &chars_of(""), 7));
}

#[test]
fn same_text_compares_whole_texts() {
    assert!(same_text(&chars_of("ap0"), &chars_of("ap0")));
    assert!(!same_text(&chars_of("ap0"), &chars_of("ap")));
    assert!(!same_text(&chars_of("ap0"), &chars_of("ap1")));
    assert!(same_text(&chars_of(""), &chars_of("")));
}

#[test]
fn order_of_is_dictionary_order() {
    assert_eq!(order_of(&chars_of("10.0.0.2"), &chars_of("9.0.0.1")), TextOrder::Before);
    assert_eq!(order_of(&chars_of("9.0.0.1"), &chars_of("10.0.0.2")), TextOrder::After);
    assert_eq!(order_of(&chars_of("abc"), &chars_of("abc")), TextOrder::Same);
    assert_eq!(order_of(&chars_of("ab"), &chars_of("abc")), TextOrder::Before);
    assert_eq!(order_of(&chars_of("abc"), &chars_of("ab")), TextOrder::After);
    assert_eq!(order_of(&chars_of(""), &chars_of("")), TextOrder::Same);
    assert_eq!(order_of(&chars_of(""), &chars_of("a")), TextOrder::Before);
}

#[test]
fn order_of_agrees_with_string_order() {
    let samples = ["", "a", "ab", "b", "é", "z", "192.168.1.10", "192.168.1.9", "::1", "😀"];
    for a in samples {
        for b in samples {
            let expected = if a < b {
                TextOrder::Before
            } else if a == b {
                TextOrder::Same
            } else {
                TextOrder::After
            };
            assert_eq!(order_of(&chars_of(a), &chars_of(b)), expected, "{} {}", a, b);
        }
    }
}

#[test]
fn whitespace_agrees_with_the_standard_test() {
    for code in 0u32..0x3100 {
        if let Some(c) = char::from_u32(code) {
            assert_eq!(whitespace(c), c.is_whitespace(), "{:x}", code);
        }
    }
    assert!(!whitespace('\u{feff}'));
    assert!(!whitespace('\u{200b}'));
}

#[test]
fn blank_names_are_those_that_trim_to_nothing() {
    assert!(blank(""));
    assert!(blank(" "));
    assert!(blank(" \t\r\n"));
    assert!(blank("\u{3000}\u{a0}"));
    assert!(!blank("a"));
    assert!(!blank("  a  "));
    assert!(!blank("\u{200b}"));
    for text in ["", " ", "x", " x", "\u{2003}", "_"] {
        assert_eq!(blank(text), text.trim().is_empty());
    }
}
