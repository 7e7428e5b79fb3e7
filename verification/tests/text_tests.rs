use server::text::{find_char_index, parse_u32, push_decimal, starts_with, str_eq, trim};

#[test]
fn trim_removes_unicode_white_space() {
    assert_eq!(trim("  a b \t\n"), "a b");
    assert_eq!(trim("\u{3000}x\u{a0}"), "x");
    assert_eq!(trim("   "), "");
    assert_eq!(trim(""), "");
    assert_eq!(trim("\u{200b}x"), "\u{200b}x");
    assert_eq!(trim(" \u{85}é "), "é");
}

#[test]
fn parse_u32_as_std() {
    for s in ["0", "42", "+7", "007", "4294967295", "4294967296", "", "+", "-1", "1a", " 1", "99999999999"] {
        assert_eq!(parse_u32(s), s.parse::<u32>().ok(), "{:?}", s);
    }
}

#[test]
fn decimal_formatting() {
    for n in [0u32, 7, 10, 99, 100, 12345, u32::MAX] {
        let mut s = String::from("#");
        push_decimal(&mut s, n);
        assert_eq!(s, format!("#{}", n));
    }
}

#[test]
fn small_string_helpers() {
    assert_eq!(find_char_index("ab:c:d", ':'), Some(2));
    assert_eq!(find_char_index("héllo|", '|'), Some(5));
    assert_eq!(find_char_index("abc", ':'), None);
    assert!(starts_with("UPDATE_USERS:1:a", "UPDATE_USERS:"));
    assert!(!starts_with("UPD", "UPDATE_USERS:"));
    assert!(str_eq("x", "x"));
    assert!(!str_eq("x", "y"));
}
