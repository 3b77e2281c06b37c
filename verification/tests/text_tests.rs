use ebers_core::text::{
    char_is_digit, char_is_whitespace, digit_to_char, push_decimal, split_ranges, str_equals,
    string_from_range, to_chars, trim_range,
};

#[test]
fn whitespace_is_the_unicode_property() {
    for code in 0..=0x10FFFFu32 {
        if let Some(c) = char::from_u32(code) {
            assert_eq!(char_is_whitespace(c), c.is_whitespace(), "U+{:04X}", code);
        }
    }
}

#[test]
fn digits_are_the_ascii_digits() {
    for code in 0..=0x10FFFFu32 {
        if let Some(c) = char::from_u32(code) {
            assert_eq!(char_is_digit(c), c.is_ascii_digit(), "U+{:04X}", code);
        }
    }
    for d in 0..10u64 {
        assert_eq!(digit_to_char(d), char::from_digit(d as u32, 10).unwrap());
    }
}

#[test]
fn characters_and_back() {
    for s in ["", "a", "héllo wörld", "line\r\n", "日本語", "🙂🙃"] {
        let v = to_chars(s);
        assert_eq!(v, s.chars().collect::<Vec<char>>());
        assert_eq!(string_from_range(&v, 0, v.len()), s);
    }
    let v = to_chars("0123456789");
    assert_eq!(string_from_range(&v, 3, 7), "3456");
    assert_eq!(string_from_range(&v, 5, 5), "");
}

#[test]
fn equal_strings() {
    assert!(str_equals("", ""));
    assert!(str_equals("flu", "flu"));
    assert!(!str_equals("flu", "flue"));
    assert!(!str_equals("flu", "fly"));
    assert!(!str_equals("Flu", "flu"));
    assert!(str_equals("naïve", "naïve"));
}

#[test]
fn trimming_agrees_with_the_standard_library() {
    for s in [
        "",
        " ",
        "\t\r\n",
        "a",
        " a",
        "a ",
        "  a b  ",
        "\u{a0}x\u{3000}",
        "\r\nline\r\n",
        "x\u{200b} ",
        " \u{feff}x",
    ] {
        let v = to_chars(s);
        let (lo, hi) = trim_range(&v, 0, v.len());
        assert_eq!(string_from_range(&v, lo, hi), s.trim(), "text {:?}", s);
    }
    let v = to_chars("ab  cd  ef");
    assert_eq!(trim_range(&v, 2, 8), (4, 6));
    assert_eq!(trim_range(&v, 2, 4), (4, 4));
}

#[test]
fn splitting_agrees_with_the_standard_library() {
    for s in ["", ",", "a", "a,b", ",a", "a,", "a,,b", ",,", "1,2,3", "no commas here"] {
        let v = to_chars(s);
        let parts: Vec<String> = split_ranges(&v, 0, v.len(), ',')
            .into_iter()
            .map(|(lo, hi)| string_from_range(&v, lo, hi))
            .collect();
        let expected: Vec<String> = s.split(',').map(|p| p.to_string()).collect();
        assert_eq!(parts, expected, "text {:?}", s);
    }
    let v = to_chars("x;a;b;y");
    assert_eq!(split_ranges(&v, 2, 5, ';'), vec![(2, 3), (4, 5)]);
}

#[test]
fn decimal_numerals() {
    for n in [
        0u64,
        1,
        9,
        10,
        11,
        99,
        100,
        101,
        12345,
        4294967295,
        4294967296,
        u64::MAX,
    ] {
        let mut s = String::from("n=");
        push_decimal(&mut s, n);
        assert_eq!(s, format!("n={}", n));
    }
}
