use stock_management::text::{
    chars_of, contains_chars, digit_of, digit_text, i32_to_string, parse_i32, push_decimal,
    text_contains,
};

#[test]
fn parse_i32_reads_signed_decimals() {
    assert_eq!(parse_i32("7"), Some(7));
    assert_eq!(parse_i32("-7"), Some(-7));
    assert_eq!(parse_i32("+7"), Some(7));
    assert_eq!(parse_i32("007"), Some(7));
    assert_eq!(parse_i32("0"), Some(0));
    assert_eq!(parse_i32("-0"), Some(0));
    assert_eq!(parse_i32("12"), Some(12));
    assert_eq!(parse_i32("2147483647"), Some(i32::MAX));
    assert_eq!(parse_i32("-2147483648"), Some(i32::MIN));
    assert_eq!(parse_i32("000000000000000000000000000012"), Some(12));
}

#[test]
fn parse_i32_rejects_everything_else() {
    for text in [
        "", "-", "+", "7a", "a7", " 7", "7 ", "1_000", "1.0", "--7", "+-7", "2147483648",
        "-2147483649", "99999999999999999999", "-99999999999999999999", "12 units", "٧",
    ] {
        assert_eq!(parse_i32(text), None, "{:?}", text);
    }
}

#[test]
fn parse_i32_agrees_with_the_standard_parser() {
    let samples = [
        "", "0", "7", "-7", "+7", "007", "-", "+", " 7", "7 ", "12ab", "2147483647", "2147483648",
        "-2147483648", "-2147483649", "4294967296", "+0", "-00", "1e3", "0x10", "１２",
        "123456789012345678901234567890",
    ];
    for text in samples {
        assert_eq!(parse_i32(text), text.parse::<i32>().ok(), "{:?}", text);
    }
    for value in [-1000, -1, 0, 1, 9, 10, 99, 100, 12345, i32::MAX, i32::MIN] {
        assert_eq!(parse_i32(&value.to_string()), Some(value));
    }
}

#[test]
fn i32_to_string_agrees_with_the_standard_printer() {
    for value in [0, 1, 9, 10, 11, 99, 100, 101, 12345, -1, -10, -12345, i32::MAX, i32::MIN] {
        assert_eq!(i32_to_string(value), value.to_string());
    }
    assert_eq!(i32_to_string(5), "5");
    assert_eq!(i32_to_string(-2147483648), "-2147483648");
}

#[test]
fn push_decimal_appends() {
    let mut out = String::from("Product ");
    push_decimal(&mut out, 0);
    assert_eq!(out, "Product 0");
    push_decimal(&mut out, 1234567890123);
    assert_eq!(out, "Product 01234567890123");
    let mut big = String::new();
    push_decimal(&mut big, u64::MAX);
    assert_eq!(big, "18446744073709551615");
}

#[test]
fn digits_map_both_ways() {
    for (d, c) in ('0'..='9').enumerate() {
        assert_eq!(digit_of(c), Some(d as u8));
        assert_eq!(digit_text(d as u8), c.to_string());
    }
    for c in ['a', ' ', '-', '/', ':', '٧'] {
        assert_eq!(digit_of(c), None);
    }
}

#[test]
fn chars_of_counts_characters_not_bytes() {
    assert_eq!(chars_of("abc"), vec!['a', 'b', 'c']);
    assert_eq!(chars_of("é水"), vec!['é', '水']);
    assert_eq!(chars_of(""), Vec::<char>::new());
}

#[test]
fn text_contains_finds_contiguous_parts() {
    assert!(text_contains("Main warehouse", "ware"));
    assert!(text_contains("Main warehouse", "Main"));
    assert!(text_contains("Main warehouse", "house"));
    assert!(text_contains("Main warehouse", "Main warehouse"));
    assert!(text_contains("Main warehouse", ""));
    assert!(text_contains("", ""));
    assert!(!text_contains("", "a"));
    assert!(!text_contains("Main warehouse", "Main warehouses"));
    assert!(!text_contains("Main warehouse", "mall"));
    assert!(!text_contains("abc", "ac"));
    assert!(text_contains("12 units", "12"));
    assert!(text_contains("aab", "ab"));
    assert!(text_contains("depósito", "ó"));
}

#[test]
fn text_contains_keeps_case_apart_and_has_no_wildcards() {
    assert!(!text_contains("Main warehouse", "main"));
    assert!(!text_contains("Main warehouse", "WARE"));
    assert!(!text_contains("Main warehouse", "%"));
    assert!(!text_contains("Main warehouse", "M_in"));
    assert!(text_contains("100% cotton", "%"));
}

#[test]
fn text_contains_agrees_with_the_standard_search() {
    let hay = ["", "a", "ab", "aab", "abab", "Shelf 7", "日本語のテキスト", "xxé"];
    let needles = ["", "a", "b", "ab", "ba", "aa", "7", "本語", "é", "abc", "テキストx"];
    for h in hay {
        for n in needles {
            assert_eq!(text_contains(h, n), h.contains(n), "{:?} in {:?}", n, h);
        }
    }
}

#[test]
fn contains_chars_works_on_characters() {
    let hay: Vec<char> = "Shelf 7".chars().collect();
    let needle: Vec<char> = "f 7".chars().collect();
    assert!(contains_chars(&hay, &needle));
    assert!(!contains_chars(&needle, &hay));
}
