use thread2channel::text::{
    chars_of, decimal_string, has_prefix, parse_unsigned, push_decimal, same_text, string_of, trim,
};

fn cs(s: &str) -> Vec<char> {
    s.chars().collect()
}

#[test]
fn chars_of_copies_every_character() {
    assert_eq!(chars_of("a\u{e9}\u{3042}:"), vec!['a', '\u{e9}', '\u{3042}', ':']);
    assert_eq!(chars_of(""), Vec::<char>::new());
}

#[test]
fn string_of_appends_each_character_in_order() {
    assert_eq!(string_of(&['h', 'i', '!']), "hi!");
    assert_eq!(string_of(&[]), "");
    assert_eq!(string_of(&cs("\u{1f504} ok")), "\u{1f504} ok");
}

#[test]
fn same_text_compares_contents() {
    assert!(same_text(&cs("all"), &cs("all")));
    assert!(!same_text(&cs("all"), &cs("alL")));
    assert!(!same_text(&cs("all"), &cs("al")));
    assert!(same_text(&[], &[]));
}

#[test]
fn has_prefix_needs_the_whole_prefix() {
    assert!(has_prefix(&cs("https://x"), &cs("https://")));
    assert!(!has_prefix(&cs("http://x"), &cs("https://")));
    assert!(!has_prefix(&cs("ht"), &cs("http://")));
    assert!(has_prefix(&cs("abc"), &[]));
}

#[test]
fn decimal_string_writes_numerals() {
    assert_eq!(decimal_string(0), "0");
    assert_eq!(decimal_string(7), "7");
    assert_eq!(decimal_string(10), "10");
    assert_eq!(decimal_string(1_350_283_354_309_660_672), "1350283354309660672");
    assert_eq!(decimal_string(u64::MAX), "18446744073709551615");
}

#[test]
fn push_decimal_keeps_what_was_there() {
    let mut s = String::from("n=");
    push_decimal(&mut s, 305);
    assert_eq!(s, "n=305");
}

#[test]
fn parse_unsigned_reads_digits() {
    assert_eq!(parse_unsigned(&cs("0")), Some(0));
    assert_eq!(parse_unsigned(&cs("111")), Some(111));
    assert_eq!(parse_unsigned(&cs("007")), Some(7));
    assert_eq!(parse_unsigned(&cs("+42")), Some(42));
    assert_eq!(parse_unsigned(&cs("18446744073709551615")), Some(u64::MAX));
}

#[test]
fn parse_unsigned_rejects_what_is_not_a_number() {
    assert_eq!(parse_unsigned(&cs("")), None);
    assert_eq!(parse_unsigned(&cs("+")), None);
    assert_eq!(parse_unsigned(&cs("-1")), None);
    assert_eq!(parse_unsigned(&cs("12a")), None);
    assert_eq!(parse_unsigned(&cs(" 12")), None);
    assert_eq!(parse_unsigned(&cs("1_000")), None);
    assert_eq!(parse_unsigned(&cs("\u{661}\u{662}")), None);
}

#[test]
fn parse_unsigned_rejects_overflow() {
    assert_eq!(parse_unsigned(&cs("18446744073709551616")), None);
    assert_eq!(parse_unsigned(&cs("99999999999999999999999")), None);
    assert_eq!(parse_unsigned(&cs("000018446744073709551615")), Some(u64::MAX));
}

#[test]
fn parse_agrees_with_the_standard_library() {
    for text in ["", "+", "+0", "0", "00", "9", "+18446744073709551615", "18446744073709551616", "1 ", "x"] {
        assert_eq!(parse_unsigned(&cs(text)), text.parse::<u64>().ok(), "{:?}", text);
    }
}

#[test]
fn numeral_round_trip() {
    for n in [0u64, 1, 9, 10, 99, 100, 12345, u64::MAX - 1, u64::MAX] {
        assert_eq!(parse_unsigned(&cs(&decimal_string(n))), Some(n));
    }
}

#[test]
fn trim_removes_white_space_at_both_ends() {
    assert_eq!(trim(&cs("  !all \n")), &cs("!all")[..]);
    assert_eq!(trim(&cs("a b")), &cs("a b")[..]);
    assert_eq!(trim(&cs(" \t\r\n")), &[] as &[char]);
    assert_eq!(trim(&cs("")), &[] as &[char]);
    assert_eq!(trim(&cs("\u{3000}x\u{a0}")), &['x'][..]);
}

#[test]
fn trim_agrees_with_the_standard_library() {
    for text in ["", " ", "x", " x", "x ", "\u{85}x\u{2028}", "\u{200b}x", "\u{1680} a  b \u{205f}"] {
        assert_eq!(string_of(trim(&cs(text))), text.trim(), "{:?}", text);
    }
}
