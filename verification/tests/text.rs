use std::io::BufRead;

use java_launcher::decimal::{parse_i32, push_decimal};
use java_launcher::text::{
    chars_of, find_from, find_last, is_whitespace, matches_at, replace_chars, same_chars,
    split_at_each, split_lines, starts_with, string_of, sub_chars, take_up_to, trim,
};

fn chars(s: &str) -> Vec<char> {
    s.chars().collect()
}

fn text(v: &Vec<char>) -> String {
    v.iter().collect()
}

fn parse(s: &str) -> Option<i32> {
    parse_i32(&chars(s))
}

#[test]
fn chars_and_strings_convert_back_and_forth() {
    assert_eq!(chars_of("héllo ✓"), chars("héllo ✓"));
    assert_eq!(string_of(&chars("héllo ✓")), "héllo ✓");
    assert_eq!(chars_of(""), Vec::<char>::new());
    assert_eq!(string_of(&vec![]), "");
}

#[test]
fn parse_i32_reads_signed_decimals() {
    assert_eq!(parse("0"), Some(0));
    assert_eq!(parse("17"), Some(17));
    assert_eq!(parse("+17"), Some(17));
    assert_eq!(parse("-17"), Some(-17));
    assert_eq!(parse("000017"), Some(17));
    assert_eq!(parse("-0"), Some(0));
    assert_eq!(parse("2147483647"), Some(i32::MAX));
    assert_eq!(parse("-2147483648"), Some(i32::MIN));
    assert_eq!(parse("00000000000000000002147483647"), Some(i32::MAX));
}

#[test]
fn parse_i32_refuses_what_is_no_number() {
    for bad in ["", "+", "-", " 1", "1 ", "1a", "a1", "--1", "+-1", "1.0", "١٢", "0x10", "1_000"] {
        assert_eq!(parse(bad), None);
    }
}

#[test]
fn parse_i32_refuses_what_does_not_fit() {
    assert_eq!(parse("2147483648"), None);
    assert_eq!(parse("-2147483649"), None);
    assert_eq!(parse("99999999999999999999999999"), None);
    assert_eq!(parse("-99999999999999999999999999"), None);
    assert_eq!(parse("21474836470"), None);
}

#[test]
fn parse_i32_agrees_with_the_standard_parser() {
    for s in ["5", "+5", "-5", "", "+", "12x", "2147483647", "2147483648", "-2147483648", "007"] {
        assert_eq!(parse(s), s.parse::<i32>().ok());
    }
}

#[test]
fn push_decimal_writes_the_shortest_text() {
    for n in [0u64, 1, 9, 10, 11, 99, 100, 4_000_000, 1_600_000, u64::MAX] {
        let mut out = chars("x");
        push_decimal(&mut out, n);
        assert_eq!(text(&out), format!("x{}", n));
    }
}

#[test]
fn prefixes_and_matches() {
    assert!(starts_with(&chars("JAVA_VERSION=1"), &chars("JAVA_VERSION=")));
    assert!(starts_with(&chars("abc"), &chars("")));
    assert!(starts_with(&chars("abc"), &chars("abc")));
    assert!(!starts_with(&chars("ab"), &chars("abc")));
    assert!(!starts_with(&chars("xbc"), &chars("abc")));
    assert!(matches_at(&chars("hello"), 2, &chars("llo")));
    assert!(matches_at(&chars("hello"), 5, &chars("")));
    assert!(!matches_at(&chars("hello"), 3, &chars("llo")));
    assert!(!matches_at(&chars("hello"), 6, &chars("")));
    assert!(!matches_at(&chars("hello"), usize::MAX, &chars("h")));
    assert!(same_chars(&chars("abc"), &chars("abc")));
    assert!(!same_chars(&chars("abc"), &chars("abd")));
    assert!(!same_chars(&chars("abc"), &chars("ab")));
}

#[test]
fn finding_characters() {
    assert_eq!(find_from(&chars("a=b=c"), 0, '='), 1);
    assert_eq!(find_from(&chars("a=b=c"), 2, '='), 3);
    assert_eq!(find_from(&chars("a=b=c"), 4, '='), 5);
    assert_eq!(find_from(&chars(""), 0, '='), 0);
    assert_eq!(find_last(&chars("[a]b]"), ']'), Some(4));
    assert_eq!(find_last(&chars("[ab"), ']'), None);
    assert_eq!(text(&take_up_to(&chars("17.0.2"), '.')), "17");
    assert_eq!(text(&take_up_to(&chars("17"), '.')), "17");
    assert_eq!(text(&take_up_to(&chars(".17"), '.')), "");
    assert_eq!(text(&sub_chars(&chars("hello"), 1, 3)), "el");
}

#[test]
fn lines_are_split_as_a_reader_does() {
    let lines = |s: &str| -> Vec<String> { split_lines(s).iter().map(text).collect() };
    assert_eq!(lines("a\nb\nc"), vec!["a", "b", "c"]);
    assert_eq!(lines("a\nb\n"), vec!["a", "b"]);
    assert_eq!(lines("a\r\nb\r\n"), vec!["a", "b"]);
    assert_eq!(lines("a\n\nb"), vec!["a", "", "b"]);
    assert_eq!(lines("\n"), vec![""]);
    assert_eq!(lines(""), Vec::<String>::new());
    assert_eq!(lines("a\r"), vec!["a\r"]);
    assert_eq!(lines("a\r\r\nb"), vec!["a\r", "b"]);
    for s in ["x\ny\r\nz", "\n\n", "one", "\r\n", "a\rb\n"] {
        let expected: Vec<String> =
            std::io::Cursor::new(s.as_bytes()).lines().map(|l| l.unwrap()).collect();
        assert_eq!(lines(s), expected);
    }
}

#[test]
fn trimming_white_space() {
    assert_eq!(text(&trim(&chars("  a b \t\r\n"))), "a b");
    assert_eq!(text(&trim(&chars("\u{3000}x\u{a0}"))), "x");
    assert_eq!(text(&trim(&chars("   "))), "");
    assert_eq!(text(&trim(&chars(""))), "");
    assert_eq!(text(&trim(&chars("x"))), "x");
    for n in 0u32..0x3100 {
        if let Some(c) = char::from_u32(n) {
            assert_eq!(is_whitespace(c), c.is_whitespace());
        }
    }
}

#[test]
fn splitting_at_each_separator() {
    let pieces = |s: &str| -> Vec<String> { split_at_each(&chars(s), ' ').iter().map(text).collect() };
    assert_eq!(pieces("a b c"), vec!["a", "b", "c"]);
    assert_eq!(pieces("a  b"), vec!["a", "", "b"]);
    assert_eq!(pieces(" a "), vec!["", "a", ""]);
    assert_eq!(pieces(""), vec![""]);
    assert_eq!(pieces("abc"), vec!["abc"]);
    for s in ["x y", "  ", "a b  c ", ""] {
        let expected: Vec<String> = s.split(' ').map(String::from).collect();
        assert_eq!(pieces(s), expected);
    }
}

#[test]
fn replacing_tokens() {
    let replace = |s: &str, t: &str, w: &str| text(&replace_chars(&chars(s), &chars(t), &chars(w)));
    assert_eq!(replace("a$Xb$X", "$X", "--"), "a--b--");
    assert_eq!(replace("aaa", "aa", "b"), "ba");
    assert_eq!(replace("abc", "", "x"), "abc");
    assert_eq!(replace("abc", "abcd", "x"), "abc");
    assert_eq!(replace("", "a", "x"), "");
    for (s, t, w) in [("$APPDIR/x:$APPDIR/y", "$APPDIR", "/opt/app"), ("ababab", "aba", "c"), ("xx", "x", "xx")] {
        assert_eq!(replace(s, t, w), s.replace(t, w));
    }
}
