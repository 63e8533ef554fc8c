use mtdi::encoding::{offset64, push_le32, push_le64, read_le32};
use mtdi::text::{
    begins_with, chars_of, contains_text, push_decimal, push_digits, push_hex, push_padded,
    push_padded_signed, push_signed, text_eq, until_nul,
};

fn written(f: impl Fn(&mut String)) -> String {
    let mut s = String::from("<");
    f(&mut s);
    s
}

#[test]
fn numbers_are_written_in_bases() {
    assert_eq!(written(|s| push_digits(s, 0, 16)), "<0");
    assert_eq!(written(|s| push_digits(s, 0xDEAD_BEEF, 16)), "<deadbeef");
    assert_eq!(written(|s| push_digits(s, u64::MAX, 2)), format!("<{:b}", u64::MAX));
    assert_eq!(written(|s| push_digits(s, 0o644, 8)), "<644");
    assert_eq!(written(|s| push_hex(s, 255)), "<0xff");
    assert_eq!(written(|s| push_decimal(s, u64::MAX)), "<18446744073709551615");
    assert_eq!(written(|s| push_signed(s, i32::MIN)), "<-2147483648");
    assert_eq!(written(|s| push_signed(s, 7)), "<7");
}

#[test]
fn numbers_are_padded() {
    assert_eq!(written(|s| push_padded(s, 7, 10, 3)), "<007");
    assert_eq!(written(|s| push_padded(s, 1234, 10, 3)), "<1234");
    assert_eq!(written(|s| push_padded(s, 10, 16, 2)), "<0a");
    for n in [-1, -1234, 0, 5, 99999] {
        assert_eq!(written(|s| push_padded_signed(s, n, 4)), format!("<{:04}", n));
        assert_eq!(written(|s| push_padded_signed(s, n, 0)), format!("<{:00}", n));
    }
}

#[test]
fn texts_are_searched() {
    assert!(contains_text("abcabd", "abd"));
    assert!(contains_text("abc", ""));
    assert!(contains_text("", ""));
    assert!(!contains_text("ab", "abc"));
    assert!(contains_text("\u{e9}t\u{e9}", "t\u{e9}"));
    assert!(begins_with("-x", "-"));
    assert!(!begins_with("x-", "-"));
    assert!(!begins_with("", "-"));
    assert!(text_eq("a", "a") && !text_eq("a", "b") && !text_eq("a", "ab"));
    assert_eq!(chars_of("h\u{e9}!"), vec!['h', '\u{e9}', '!']);
    assert_eq!((until_nul(b"ab\0c"), until_nul(b"ab"), until_nul(b"")), (2, 2, 0));
}

#[test]
fn words_are_little_endian() {
    let mut out = Vec::new();
    push_le32(&mut out, 0x0102_0304);
    push_le64(&mut out, 0x1122_3344_5566_7788);
    assert_eq!(out, [4, 3, 2, 1, 0x88, 0x77, 0x66, 0x55, 0x44, 0x33, 0x22, 0x11]);
    assert_eq!(read_le32(&out, 0), 0x0102_0304);
    assert_eq!(read_le32(&out, 1), 0x8801_0203);
    assert_eq!(offset64(1, -2), u64::MAX);
    assert_eq!(offset64(u64::MAX, 1), 0);
}
