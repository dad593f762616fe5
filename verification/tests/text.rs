use sysmon::text::{decimal_string, push_decimal_padded, push_padded_left, push_padded_right, utf8_truncate};

#[test]
fn decimals() {
    assert_eq!(decimal_string(0), "0");
    assert_eq!(decimal_string(7), "7");
    assert_eq!(decimal_string(1234567890), "1234567890");
    assert_eq!(decimal_string(u64::MAX), u64::MAX.to_string());
}

#[test]
fn padding() {
    let mut s = String::new();
    push_padded_left(&mut s, "ab", 5, '.');
    push_padded_right(&mut s, "cd", 4);
    push_padded_left(&mut s, "toolong", 3, ' ');
    push_decimal_padded(&mut s, 7, 2, '0');
    assert_eq!(s, "...abcd  toolong07");
    let mut t = String::new();
    push_padded_right(&mut t, "é", 3);
    assert_eq!(t, format!("{:<3}", "é"));
}

#[test]
fn truncation_by_bytes() {
    assert_eq!(utf8_truncate("short", 24), "short");
    assert_eq!(utf8_truncate("abcdefghijklmnopqrstuvwxyz", 24), "abcdefghijklmnopqrstuvwx");
    let s = "ééééé";
    assert_eq!(utf8_truncate(s, 4), &s[..4]);
    assert_eq!(utf8_truncate(s, 5), "éé");
    assert_eq!(utf8_truncate("", 3), "");
}
