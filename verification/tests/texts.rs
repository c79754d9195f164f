//! Cutting texts to size, and the C strings that carry them.
use js_exception::convert::decimal_text;
use js_exception::text::{c_message, c_text, truncate_str};

#[test]
fn text_that_fits_is_not_cut() {
    assert_eq!(truncate_str(5, b"hello"), b"hello");
    assert_eq!(truncate_str(5, b""), b"");
    assert_eq!(truncate_str(0, b""), b"");
}

#[test]
fn ascii_text_is_cut_at_the_limit() {
    assert_eq!(truncate_str(3, b"hello"), b"hel");
    assert_eq!(truncate_str(0, b"hello"), b"");
}

#[test]
fn cut_does_not_split_a_character() {
    // two, three and four bytes
    let text = "a\u{e9}\u{20ac}\u{1f600}z".as_bytes();
    let kept: Vec<usize> = (0..=text.len()).map(|max| truncate_str(max, text).len()).collect();
    assert_eq!(kept, vec![0, 1, 1, 3, 3, 3, 6, 6, 6, 6, 10, 11]);
}

#[test]
fn cutting_twice_changes_nothing() {
    let text = "\u{20ac}".repeat(10);
    let once = truncate_str(10, text.as_bytes());
    assert_eq!(once.len(), 9);
    assert_eq!(truncate_str(10, once), once);
}

#[test]
fn cut_of_bytes_that_are_no_text() {
    // a byte that a character can start with, then continuation bytes only
    assert_eq!(truncate_str(3, &[0xff, 0x80, 0x80, 0x80, 0x80]), b"");
}

#[test]
fn message_buffer_is_zero_terminated() {
    let buffer = c_message("abc");
    assert_eq!(&buffer[..3], b"abc");
    assert!(buffer[3..].iter().all(|byte| *byte == 0));
    assert_eq!(c_text(&buffer), Some("abc"));

    let buffer = c_message(&"x".repeat(300));
    assert!(buffer[..255].iter().all(|byte| *byte == b'x'));
    assert_eq!(buffer[255], 0);
}

#[test]
fn message_buffer_holds_whole_characters() {
    // 85 characters of three bytes are 255 bytes; with one byte in front the last falls out
    let message = "\u{20ac}".repeat(100);
    assert_eq!(c_text(&c_message(&message)), Some("\u{20ac}".repeat(85).as_str()));
    let message = format!("a{message}");
    assert_eq!(
        c_text(&c_message(&message)),
        Some(format!("a{}", "\u{20ac}".repeat(84)).as_str())
    );
}

#[test]
fn c_string_ends_at_the_first_zero_byte() {
    assert_eq!(c_text(b"ab\0cd"), Some("ab"));
    assert_eq!(c_text(b"ab"), Some("ab"));
    assert_eq!(c_text(b""), Some(""));
    assert_eq!(c_text(b"\0"), Some(""));
    assert_eq!(c_text(&c_message("ab\0cd")), Some("ab"));
}

#[test]
fn c_string_that_is_no_text() {
    assert_eq!(c_text(&[0xff, 0x00]), None);
    assert_eq!(c_text(&[0xc3]), None);
    assert_eq!(c_text(&[0x61, 0x00, 0xff]), Some("a"));
}

#[test]
fn decimal_texts() {
    assert_eq!(decimal_text(0), "0");
    assert_eq!(decimal_text(7), "7");
    assert_eq!(decimal_text(10), "10");
    assert_eq!(decimal_text(1234567890), "1234567890");
    assert_eq!(decimal_text(-42), "-42");
    assert_eq!(decimal_text(i32::MAX), "2147483647");
    assert_eq!(decimal_text(i32::MIN), "-2147483648");
}
