use rendezvous::text::{
    chars_of, first_char, is_space, parse_usize, push_decimal, push_list, same_text, split_once,
    to_decimal, trim,
};

#[test]
fn is_space_agrees_with_unicode_white_space() {
    for u in 0..=0x10FFFFu32 {
        if let Some(c) = char::from_u32(u) {
            assert_eq!(is_space(c), c.is_whitespace(), "U+{:04X}", u);
        }
    }
}

#[test]
fn trim_removes_both_ends_only() {
    assert_eq!(trim("  /join 7 9 \n"), "/join 7 9");
    assert_eq!(trim("\t\u{3000}a b\u{a0}\r"), "a b");
    assert_eq!(trim("abc"), "abc");
    assert_eq!(trim("   "), "");
    assert_eq!(trim(""), "");
    assert_eq!(trim(" é ü "), "é ü");
    for s in ["", " ", " x", "x ", " x y ", "\u{85}x\u{2028}", "\u{200b}x"] {
        assert_eq!(trim(s), s.trim());
    }
}

#[test]
fn split_once_cuts_at_the_first_space() {
    assert_eq!(split_once("/send 12 99"), ("/send", Some("12 99")));
    assert_eq!(split_once("/list"), ("/list", None));
    assert_eq!(split_once("/list "), ("/list", Some("")));
    assert_eq!(split_once(" x"), ("", Some("x")));
    assert_eq!(split_once(""), ("", None));
    assert_eq!(split_once("é ü ö"), ("é", Some("ü ö")));
    assert_eq!(split_once("a\tb"), ("a\tb", None));
}

#[test]
fn parse_usize_reads_decimal_digits() {
    assert_eq!(parse_usize("0"), Some(0));
    assert_eq!(parse_usize("7"), Some(7));
    assert_eq!(parse_usize("007"), Some(7));
    assert_eq!(parse_usize("+5"), Some(5));
    assert_eq!(parse_usize("1234567890"), Some(1234567890));
    assert_eq!(parse_usize(&usize::MAX.to_string()), Some(usize::MAX));
}

#[test]
fn parse_usize_rejects_everything_else() {
    for s in [
        "", "+", "-", "-0", "-1", " 5", "5 ", "5a", "a5", "1 2", "++1", "1_000", "0x10", "１２",
        "1.0", "18446744073709551616", "99999999999999999999999999",
    ] {
        assert_eq!(parse_usize(s), None, "{:?}", s);
    }
}

#[test]
fn parse_usize_agrees_with_std() {
    for s in ["", "+", "+0", "0", "00", "+007", "42", "-3", "4 2", "18446744073709551615",
        "18446744073709551616", "184467440737095516150", "9a", "٣"] {
        assert_eq!(parse_usize(s), s.parse::<usize>().ok(), "{:?}", s);
    }
}

#[test]
fn to_decimal_writes_without_sign_or_leading_zero() {
    assert_eq!(to_decimal(0), "0");
    assert_eq!(to_decimal(9), "9");
    assert_eq!(to_decimal(10), "10");
    assert_eq!(to_decimal(1203), "1203");
    assert_eq!(to_decimal(usize::MAX), usize::MAX.to_string());
}

#[test]
fn written_numbers_are_read_back() {
    for n in [0usize, 1, 9, 10, 99, 100, 12345, usize::MAX - 1, usize::MAX] {
        assert_eq!(parse_usize(&to_decimal(n)), Some(n));
    }
}

#[test]
fn push_decimal_appends() {
    let mut s = String::from("/id ");
    push_decimal(&mut s, 507);
    assert_eq!(s, "/id 507");
}

#[test]
fn push_list_writes_brackets_and_commas() {
    let mut s = String::from("/members ");
    push_list(&mut s, &vec![]);
    assert_eq!(s, "/members []");
    let mut s = String::new();
    push_list(&mut s, &vec![7]);
    assert_eq!(s, "[7]");
    let mut s = String::new();
    push_list(&mut s, &vec![3, 0, 12]);
    assert_eq!(s, "[3, 0, 12]");
    assert_eq!(s, format!("{:?}", vec![3usize, 0, 12]));
}

#[test]
fn chars_and_comparison() {
    assert_eq!(chars_of("aé "), vec!['a', 'é', ' ']);
    assert_eq!(chars_of(""), Vec::<char>::new());
    assert_eq!(first_char("/x"), Some('/'));
    assert_eq!(first_char(""), None);
    assert!(same_text("/list", "/list"));
    assert!(!same_text("/list", "/lis"));
    assert!(!same_text("/list", "/lisT"));
    assert!(same_text("", ""));
}
