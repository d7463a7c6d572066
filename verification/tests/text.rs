use handbrake::text::{
    char_is_whitespace, decimal_string, decode_text, ends_with, join, push_decimal,
    push_signed_decimal, push_text, same_text, trim,
};

#[test]
fn numbers_are_written_in_decimal() {
    assert_eq!(decimal_string(0), "0");
    assert_eq!(decimal_string(9), "9");
    assert_eq!(decimal_string(10), "10");
    assert_eq!(decimal_string(4294967295), "4294967295");
    assert_eq!(decimal_string(u64::MAX), "18446744073709551615");
    let mut out = String::from("n=");
    push_decimal(&mut out, 1080);
    assert_eq!(out, "n=1080");
}

#[test]
fn negative_numbers_carry_a_sign() {
    let mut out = String::new();
    push_signed_decimal(&mut out, -1);
    push_signed_decimal(&mut out, 0);
    push_signed_decimal(&mut out, 17);
    push_signed_decimal(&mut out, i64::MIN);
    assert_eq!(out, "-1017-9223372036854775808");
}

#[test]
fn lists_are_joined_with_the_separator_between_items() {
    assert_eq!(join(&Vec::new(), ","), "");
    assert_eq!(join(&vec![String::from("eng")], ","), "eng");
    assert_eq!(join(&vec![String::from("eng"), String::from("fre")], ","), "eng,fre");
    assert_eq!(join(&vec![String::new(), String::new(), String::from("x")], ", "), ", , x");
    let mut list = vec![String::from("a")];
    push_text(&mut list, String::from("b"));
    assert_eq!(list, vec!["a", "b"]);
}

#[test]
fn suffixes_and_equality_go_by_characters() {
    assert!(ends_with("[10:00:00] json job:", "json job:"));
    assert!(ends_with("json job:", "json job:"));
    assert!(!ends_with("son job:", "json job:"));
    assert!(!ends_with("json job: ", "json job:"));
    assert!(ends_with("anything", ""));
    assert!(ends_with("caf\u{e9} json job:", "json job:"));
    assert!(same_text("}", "}"));
    assert!(!same_text("}", "} "));
    assert!(!same_text("\u{e9}", "e"));
    assert!(same_text("", ""));
}

#[test]
fn trimming_takes_unicode_white_space_off_both_ends() {
    assert_eq!(trim("  a b \n"), "a b");
    assert_eq!(trim(""), "");
    assert_eq!(trim(" \t\r\n"), "");
    assert_eq!(trim("x"), "x");
    assert_eq!(trim("\u{85}\u{1680}x\u{2000}\u{200a}\u{202f}\u{205f}"), "x");
    for code in 0u32..0x3100 {
        if let Some(c) = char::from_u32(code) {
            assert_eq!(char_is_whitespace(c), c.is_whitespace(), "U+{:04X}", code);
            let text = format!("{}v{}", c, c);
            assert_eq!(trim(&text), text.trim());
        }
    }
}

#[test]
fn bytes_decode_as_utf8_or_say_why_not() {
    assert_eq!(decode_text(b"HandBrake".to_vec()), Ok(String::from("HandBrake")));
    assert_eq!(decode_text("caf\u{e9}".as_bytes().to_vec()), Ok(String::from("caf\u{e9}")));
    assert_eq!(decode_text(Vec::new()), Ok(String::new()));
    assert_eq!(
        decode_text(vec![0x48, 0xFF]),
        Err(String::from("invalid utf-8 sequence of 1 bytes from index 1"))
    );
    assert_eq!(
        decode_text(vec![0x48, 0xC3]),
        Err(String::from("incomplete utf-8 byte sequence from index 1"))
    );
}
