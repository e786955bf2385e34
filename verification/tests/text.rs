use bsync::text::{can_cut, decimal_text, take_bytes, trim};

#[test]
fn numbers_in_decimal() {
    assert_eq!(decimal_text(0), "0");
    assert_eq!(decimal_text(10), "10");
    assert_eq!(decimal_text(u64::MAX), "18446744073709551615");
}

#[test]
fn white_space_is_trimmed() {
    assert_eq!(trim(" \t a b \u{3000}\n"), "a b");
    assert_eq!(trim("\u{200b}"), "\u{200b}");
    assert_eq!(trim(" \n"), "");
    assert_eq!(trim(""), "");
}

#[test]
fn bytes_are_cut_between_characters() {
    assert_eq!(take_bytes("hello", 3), "hel");
    assert_eq!(take_bytes("hello", 9), "hello");
    assert!(can_cut("\u{e9}\u{e9}", 2));
    assert!(!can_cut("\u{e9}\u{e9}", 3));
    assert_eq!(take_bytes("\u{e9}\u{e9}", 2), "\u{e9}");
}

#[test]
fn all_white_space_of_unicode_is_trimmed() {
    let mut count = 0;
    for c in '\u{0}'..='\u{10ffff}' {
        if trim(&c.to_string()).is_empty() {
            count += 1;
        }
    }
    assert_eq!(count, 25);
}
