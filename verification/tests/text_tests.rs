use sherpresent::num::{parse_i32, parse_u16, parse_u32};
use sherpresent::split::{split_by_str, splitn_by_str, split_chars};
use sherpresent::text::{i64_to_decimal, trim_str, u64_to_decimal};

#[test]
fn integers_parse_like_str_parse() {
    assert_eq!(parse_i32("42"), Some(42));
    assert_eq!(parse_i32("+7"), Some(7));
    assert_eq!(parse_i32("-2147483648"), Some(i32::MIN));
    assert_eq!(parse_i32("2147483648"), None);
    assert_eq!(parse_i32("-"), None);
    assert_eq!(parse_i32(""), None);
    assert_eq!(parse_i32(" 1"), None);
    assert_eq!(parse_u32("-0"), None);
    assert_eq!(parse_u32("4294967295"), Some(u32::MAX));
    assert_eq!(parse_u32("99999999999999999999999"), None);
    assert_eq!(parse_u16("65535"), Some(65535));
    assert_eq!(parse_u16("65536"), None);
}

#[test]
fn decimal_round_trip() {
    for n in [0u64, 7, 10, 65535, 4294967295] {
        let text = u64_to_decimal(n);
        assert_eq!(text, n.to_string());
        if n <= u32::MAX as u64 {
            assert_eq!(parse_u32(&text), Some(n as u32));
        }
    }
    assert_eq!(i64_to_decimal(i64::MIN), i64::MIN.to_string());
    assert_eq!(i64_to_decimal(-5), "-5");
}

#[test]
fn trimming_and_splitting() {
    assert_eq!(trim_str("\u{3000} a b \t\n"), "a b");
    assert_eq!(split_chars("a-b_c--", '-', '_'), vec!["a", "b", "c", "", ""]);
    assert_eq!(split_by_str("a, b, ,c", ", "), vec!["a", "b", ",c"]);
    assert_eq!(splitn_by_str("1|||2|||3|||4", 3, "|||"), vec!["1", "2", "3|||4"]);
    assert!(splitn_by_str("x", 0, "|||").is_empty());
    assert_eq!(splitn_by_str("x|||y", 1, "|||"), vec!["x|||y"]);
}
