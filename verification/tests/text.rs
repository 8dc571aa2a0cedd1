use lukosbot::config::{needs_rewrite, normalize_lf};
use lukosbot::text::{
    chars_of, i64_to_string, is_space, join, parse_usize, split_whitespace, starts_with,
    string_of, trim, trim_bounds, u64_to_string,
};

const SAMPLES: [&str; 12] = [
    "",
    " ",
    "a",
    "  a  ",
    "\t/ping \n",
    "a b",
    " a  b\t\tc \u{3000}d\u{a0}",
    "\u{2003}x\u{2028}",
    "命令 错误",
    "--top=5 rust  lang",
    "\r\n\r\n",
    "x\u{85}y\u{1680}z",
];

#[test]
fn white_space_is_the_unicode_property() {
    for n in 0..=0x10FFFFu32 {
        if let Some(c) = char::from_u32(n) {
            assert_eq!(is_space(c), c.is_whitespace(), "U+{:04X}", n);
        }
    }
}

#[test]
fn trim_agrees_with_std() {
    for s in SAMPLES {
        assert_eq!(trim(s), s.trim(), "{:?}", s);
    }
    let v: Vec<char> = "  ab ".chars().collect();
    assert_eq!(trim_bounds(&v), (2, 4));
    let blank: Vec<char> = "   ".chars().collect();
    assert_eq!(trim_bounds(&blank), (3, 3));
}

#[test]
fn split_whitespace_agrees_with_std() {
    for s in SAMPLES {
        let expected: Vec<String> = s.split_whitespace().map(|w| w.to_string()).collect();
        assert_eq!(split_whitespace(s), expected, "{:?}", s);
    }
}

#[test]
fn join_puts_the_separator_between() {
    let parts: Vec<String> = vec!["a".into(), "b".into(), "c".into()];
    assert_eq!(join(&parts, 0, " "), "a b c");
    assert_eq!(join(&parts, 1, ", "), "b, c");
    assert_eq!(join(&parts, 2, " "), "c");
    assert_eq!(join(&parts, 3, " "), "");
    assert_eq!(join(&Vec::new(), 0, " "), "");
}

#[test]
fn joined_words_split_into_themselves() {
    let parts: Vec<String> = vec!["rest".into(), "of".into(), "the".into(), "line".into()];
    assert_eq!(split_whitespace(&join(&parts, 0, " ")), parts);
}

#[test]
fn chars_and_strings_convert_both_ways() {
    for s in SAMPLES {
        let v = chars_of(s);
        assert_eq!(v, s.chars().collect::<Vec<char>>());
        assert_eq!(string_of(&v, 0, v.len()), s);
    }
    let v = chars_of("hello");
    assert_eq!(string_of(&v, 1, 3), "el");
    assert_eq!(string_of(&v, 2, 2), "");
}

#[test]
fn starts_with_is_a_prefix_test() {
    let s = chars_of("/ping");
    assert!(starts_with(&s, &chars_of("/")));
    assert!(starts_with(&s, &chars_of("")));
    assert!(starts_with(&s, &chars_of("/ping")));
    assert!(!starts_with(&s, &chars_of("/pingx")));
    assert!(!starts_with(&s, &chars_of("p")));
}

#[test]
fn numbers_print_in_decimal() {
    for n in [0u64, 1, 9, 10, 11, 99, 100, 12345, u64::MAX] {
        assert_eq!(u64_to_string(n), n.to_string());
    }
    for n in [0i64, 1, -1, 10, -10, 4096, i64::MAX, i64::MIN, -9223372036854775807] {
        assert_eq!(i64_to_string(n), n.to_string());
    }
}

#[test]
fn numbers_parse_as_std_parses_them() {
    for s in [
        "", "+", "-", "0", "+0", "00", "7", "+7", "-7", "10", "007", "1a", "a1", " 1", "1 ",
        "++1", "18446744073709551615", "18446744073709551616", "99999999999999999999999",
        "4294967295", "4294967296", "１２",
    ] {
        assert_eq!(parse_usize(s), s.parse::<usize>().ok(), "{:?}", s);
    }
}

#[test]
fn normalize_lf_unifies_line_ends_and_trims() {
    assert_eq!(normalize_lf("a\r\nb\r\n"), "a\nb");
    assert_eq!(normalize_lf("  a\rb \n"), "a\rb");
    assert_eq!(normalize_lf("\r\r\n"), "");
    assert_eq!(normalize_lf("a\r\r\nb"), "a\r\nb");
    assert_eq!(normalize_lf("\r\n"), "");
    for s in SAMPLES {
        assert_eq!(normalize_lf(s), s.replace("\r\n", "\n").trim().to_string());
    }
}

#[test]
fn rewrite_is_needed_only_for_real_differences() {
    assert!(!needs_rewrite("a = 1\r\nb = 2\r\n", "a = 1\nb = 2\n"));
    assert!(!needs_rewrite("\n a = 1 ", "a = 1"));
    assert!(needs_rewrite("a = 1", "a = 1\nb = 2"));
    assert!(needs_rewrite("a  = 1", "a = 1"));
}
