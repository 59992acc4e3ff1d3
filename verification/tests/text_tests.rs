use window_restore::binary64::{is_below_zero, is_finite};
use window_restore::text::{
    contains_forbidden_name_char, decimal_string, escape_double_quotes, is_blank_str,
    is_forbidden_in_name, is_whitespace, lex_order, same_text, trim_str, LexOrder,
};

#[test]
fn whitespace_agrees_with_the_standard_library() {
    let mut n: u32 = 0;
    while n <= 0x10FFFF {
        if let Some(c) = char::from_u32(n) {
            assert_eq!(is_whitespace(c), c.is_whitespace(), "code point {}", n);
        }
        n += 1;
    }
}

#[test]
fn blank_is_what_trims_to_nothing() {
    for s in ["", " ", "\t\n", "\u{3000}\u{2003}", "a", " a ", "\u{200B}", " . "] {
        assert_eq!(is_blank_str(s), s.trim().is_empty(), "{:?}", s);
    }
}

#[test]
fn the_nine_forbidden_characters() {
    let forbidden = ['/', '\\', ':', '*', '?', '"', '<', '>', '|'];
    let mut n: u32 = 0;
    while n < 0x3000 {
        if let Some(c) = char::from_u32(n) {
            assert_eq!(is_forbidden_in_name(c), forbidden.contains(&c), "code point {}", n);
        }
        n += 1;
    }
    assert!(contains_forbidden_name_char("work/home"));
    assert!(contains_forbidden_name_char("|"));
    assert!(!contains_forbidden_name_char("work home-1_2.3"));
    assert!(!contains_forbidden_name_char(""));
}

#[test]
fn lexicographic_order_agrees_with_the_standard_library() {
    let samples = ["", "a", "ab", "b", "B", "abc", "abd", "é", "z", "\u{10000}", "\u{FFFF}", "work", "Work"];
    for a in samples {
        for b in samples {
            let expected = match a.cmp(b) {
                std::cmp::Ordering::Less => LexOrder::Before,
                std::cmp::Ordering::Equal => LexOrder::Same,
                std::cmp::Ordering::Greater => LexOrder::After,
            };
            assert_eq!(lex_order(a, b), expected, "{:?} against {:?}", a, b);
            assert_eq!(same_text(a, b), a == b);
        }
    }
}

#[test]
fn decimal_notation_agrees_with_the_standard_library() {
    for n in [0i64, 1, 9, 10, 11, 99, 100, 12345, -1, -9, -10, -12345, i64::MAX, i64::MIN, i64::MIN + 1] {
        assert_eq!(decimal_string(n), n.to_string());
    }
    assert_eq!(decimal_string(-305), "-305");
}

#[test]
fn double_quotes_are_escaped() {
    assert_eq!(escape_double_quotes(""), "");
    assert_eq!(escape_double_quotes("plain"), "plain");
    assert_eq!(escape_double_quotes("say \"hi\""), "say \\\"hi\\\"");
    assert_eq!(escape_double_quotes("\"\""), "\\\"\\\"");
    for s in ["a\"b", "\"", "no quotes", "back\\slash\""] {
        assert_eq!(escape_double_quotes(s), s.replace('"', "\\\""));
    }
}

#[test]
fn trimming_agrees_with_the_standard_library() {
    for s in ["", " ", "a", " a", "a ", "  a b  ", "\t\r\nx\u{3000}", "\u{2003}", " OK\n", "x\u{200B} "] {
        assert_eq!(trim_str(s), s.trim(), "{:?}", s);
    }
}

#[test]
fn finite_and_below_zero_agree_with_the_numbers() {
    let samples = [
        0.0f64,
        -0.0,
        1.0,
        -1.0,
        300.0,
        -300.5,
        f64::MIN_POSITIVE,
        -f64::MIN_POSITIVE,
        5e-324,
        -5e-324,
        f64::MAX,
        f64::MIN,
        f64::INFINITY,
        f64::NEG_INFINITY,
        f64::NAN,
        -f64::NAN,
    ];
    for v in samples {
        assert_eq!(is_finite(v.to_bits()), v.is_finite(), "{}", v);
        assert_eq!(is_below_zero(v.to_bits()), v < 0.0, "{}", v);
    }
    assert!(!is_finite(0x7FF8_0000_0000_0001));
    assert!(!is_below_zero(0xFFF8_0000_0000_0001));
    assert!(!is_below_zero(0xFFFF_FFFF_FFFF_FFFF));
}
