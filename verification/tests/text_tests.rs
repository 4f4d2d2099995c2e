use monitor_helper::text::{
    contains_chars, decimal_string, hex_code_string, hex_word_string, join_strings, normalize,
    parse_number_str, string_of,
};

fn chars(s: &str) -> Vec<char> {
    s.chars().collect()
}

#[test]
fn normalize_trims_and_lowercases() {
    assert_eq!(string_of(&normalize("  HDMI-1 \t")), "hdmi-1");
    assert_eq!(string_of(&normalize("\u{3000}Dp\u{A0}")), "dp");
    assert_eq!(string_of(&normalize("   ")), "");
}

#[test]
fn normalize_is_idempotent() {
    let once = string_of(&normalize("  Input-Source  "));
    let twice = string_of(&normalize(&once));
    assert_eq!(once, twice);
}

#[test]
fn numbers_parse_in_decimal_and_hex() {
    assert_eq!(parse_number_str("0x10", 0xFF), Some(16));
    assert_eq!(parse_number_str(" 16 ", 0xFF), Some(16));
    assert_eq!(parse_number_str("+5", 0xFF), Some(5));
    assert_eq!(parse_number_str("0xff", 0xFF), Some(255));
    assert_eq!(parse_number_str("0xFF", 0xFF), Some(255));
    assert_eq!(parse_number_str("0x+1F", 0xFF), Some(31));
    assert_eq!(parse_number_str("65535", 0xFFFF), Some(65535));
}

#[test]
fn numbers_that_do_not_parse() {
    assert_eq!(parse_number_str("0X10", 0xFF), None);
    assert_eq!(parse_number_str("256", 0xFF), None);
    assert_eq!(parse_number_str("65536", 0xFFFF), None);
    assert_eq!(parse_number_str("0x", 0xFF), None);
    assert_eq!(parse_number_str("", 0xFF), None);
    assert_eq!(parse_number_str("+", 0xFF), None);
    assert_eq!(parse_number_str("-1", 0xFF), None);
    assert_eq!(parse_number_str("1 0", 0xFF), None);
    assert_eq!(parse_number_str("0x1g", 0xFF), None);
}

#[test]
fn long_numbers_with_leading_zeros_parse() {
    assert_eq!(parse_number_str("0000000000000000000012", 0xFF), Some(12));
    assert_eq!(parse_number_str("999999999999999999999", 0xFFFF), None);
}

#[test]
fn decimal_and_hex_rendering() {
    assert_eq!(decimal_string(0), "0");
    assert_eq!(decimal_string(65535), "65535");
    assert_eq!(decimal_string(1500), "1500");
    assert_eq!(hex_code_string(0x0A), "0x0A");
    assert_eq!(hex_code_string(0xDF), "0xDF");
    assert_eq!(hex_code_string(0x1234), "0x1234");
    assert_eq!(hex_word_string(768), "0x0300");
    assert_eq!(hex_word_string(0), "0x0000");
}

#[test]
fn substring_search() {
    assert!(contains_chars(&chars("dell v2419qw"), &chars("v2419qw")));
    assert!(contains_chars(&chars("abc"), &chars("")));
    assert!(!contains_chars(&chars("ab"), &chars("abc")));
    assert!(!contains_chars(&chars("p2711"), &chars("p2711v")));
}

#[test]
fn strings_join_with_separator() {
    let parts = vec!["a".to_string(), "b".to_string(), "c".to_string()];
    assert_eq!(join_strings(&parts, ", "), "a, b, c");
    assert_eq!(join_strings(&Vec::new(), ", "), "");
    assert_eq!(join_strings(&vec!["x".to_string()], "."), "x");
}
