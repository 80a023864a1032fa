use ncd::scan::{fields, is_white_space, lines, parse_number, starts_with, trim};
use ncd::text::{
    chars_of, contains_text, decimal_string, lower_chars, push_hex_byte, push_signed_decimal,
    same_text, string_of,
};

fn chars(s: &str) -> Vec<char> {
    s.chars().collect()
}

fn texts(v: Vec<Vec<char>>) -> Vec<String> {
    v.into_iter().map(|c| c.into_iter().collect()).collect()
}

#[test]
fn white_space_of_unicode() {
    for c in '\0'..=char::MAX {
        assert_eq!(is_white_space(c), c.is_whitespace(), "{c:?}");
    }
}

#[test]
fn numbers_as_text() {
    assert_eq!(decimal_string(0), "0");
    assert_eq!(decimal_string(u64::MAX), "18446744073709551615");
    let mut s = String::from("x");
    push_signed_decimal(&mut s, i64::MIN);
    assert_eq!(s, "x-9223372036854775808");
    let mut s = String::new();
    push_hex_byte(&mut s, 0xA7);
    assert_eq!(s, "a7");
}

#[test]
fn numbers_read() {
    let n = |s: &str| parse_number(&chars(s), 65535);
    for s in ["0", "7", "+7", "65535", "65536", "", "+", "-1", "1 ", "0x1", "٣", "000080"] {
        assert_eq!(n(s).map(|v| v as u16), s.parse::<u16>().ok(), "{s:?}");
    }
    assert_eq!(parse_number(&chars("18446744073709551615"), u64::MAX), Some(u64::MAX));
    assert_eq!(parse_number(&chars("18446744073709551616"), u64::MAX), None);
}

#[test]
fn texts_taken_apart() {
    for s in ["", "a", "a\n", "a\r\nb", "\n\n", "a\r", "a\rb\n\r\n", "x\n\ny"] {
        let expected: Vec<String> = s.lines().map(|l| l.to_string()).collect();
        assert_eq!(texts(lines(&chars(s))), expected, "{s:?}");
    }
    for s in ["", ",", "a,b", ",a,,"] {
        let expected: Vec<String> = s.split(',').map(|l| l.to_string()).collect();
        assert_eq!(texts(fields(&chars(s), ',')), expected, "{s:?}");
    }
    for s in ["", "  ", " a b\t\n", "\u{3000}x\u{a0}"] {
        let all = chars(s);
        assert_eq!(string_of(trim(&all)), s.trim());
    }
}

#[test]
fn texts_compared() {
    assert!(same_text("é", "é"));
    assert!(!same_text("a", "ab"));
    assert!(contains_text("hello", "ell"));
    assert!(contains_text("hello", ""));
    assert!(!contains_text("he", "hello"));
    assert!(starts_with(&chars("abc"), &chars("ab")));
    assert!(!starts_with(&chars("a"), &chars("ab")));
    assert_eq!(lower_chars("AbÉZ"), chars("abÉz"));
    assert_eq!(chars_of("x→y"), chars("x→y"));
}
