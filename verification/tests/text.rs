use pico_httpd::text::{decimal_digits, same_text, starts_with, strip_prefix};

#[test]
fn prefixes_are_found() {
    assert!(starts_with("/cmd/on", "/cmd/"));
    assert!(starts_with("/cmd/on", ""));
    assert!(starts_with("", ""));
    assert!(starts_with("/", "/"));
    assert!(!starts_with("/cm", "/cmd/"));
    assert!(!starts_with("/cmx/on", "/cmd/"));
    assert!(starts_with("\u{e9}t\u{e9}", "\u{e9}t"));
    assert!(!starts_with("\u{e9}", "\u{e8}"));
}

#[test]
fn prefixes_are_stripped() {
    assert_eq!(strip_prefix("/cmd/on", "/cmd/"), Some("on"));
    assert_eq!(strip_prefix("/cmd/", "/cmd/"), Some(""));
    assert_eq!(strip_prefix("\u{e9}tat", "\u{e9}"), Some("tat"));
    assert_eq!(strip_prefix("/index.html", "/cmd/"), None);
}

#[test]
fn texts_are_compared() {
    assert!(same_text("GET", "GET"));
    assert!(!same_text("GET", "GE"));
    assert!(!same_text("GE", "GET"));
    assert!(!same_text("get", "GET"));
    assert!(same_text("", ""));
}

#[test]
fn numbers_are_written_in_decimal() {
    assert_eq!(decimal_digits(0), b"0");
    assert_eq!(decimal_digits(9), b"9");
    assert_eq!(decimal_digits(10), b"10");
    assert_eq!(decimal_digits(404), b"404");
    assert_eq!(decimal_digits(1000), b"1000");
    assert_eq!(decimal_digits(u64::MAX), b"18446744073709551615");
}

#[test]
fn digits_read_back() {
    for n in [0u64, 1, 10, 99, 100, 204, 8192, 4294967295] {
        let text = String::from_utf8(decimal_digits(n)).unwrap();
        assert_eq!(text.parse::<u64>().unwrap(), n);
    }
}
