use sparko_embedded_std::number::{i32_to_string, i64_to_string, parse_i32, parse_i64, usize_to_string};

#[test]
fn integers_print_in_decimal() {
    assert_eq!(i64_to_string(0), "0");
    assert_eq!(i64_to_string(-42), "-42");
    assert_eq!(i64_to_string(i64::MIN), "-9223372036854775808");
    assert_eq!(i64_to_string(i64::MAX), "9223372036854775807");
    assert_eq!(i32_to_string(i32::MIN), "-2147483648");
    assert_eq!(usize_to_string(1234), "1234");
}

#[test]
fn integers_parse_as_the_standard_library_does() {
    assert_eq!(parse_i32("42"), Some(42));
    assert_eq!(parse_i32("+42"), Some(42));
    assert_eq!(parse_i32("-2147483648"), Some(i32::MIN));
    assert_eq!(parse_i32("2147483648"), None);
    assert_eq!(parse_i32(""), None);
    assert_eq!(parse_i32("-"), None);
    assert_eq!(parse_i32(" 1"), None);
    assert_eq!(parse_i32("1a"), None);
    assert_eq!(parse_i64("-9223372036854775808"), Some(i64::MIN));
    assert_eq!(parse_i64("9223372036854775808"), None);
    assert_eq!(parse_i64("007"), Some(7));
}

#[test]
fn printed_integers_read_back() {
    for v in [0i64, 1, -1, 99, -100, i64::MIN, i64::MAX] {
        assert_eq!(parse_i64(&i64_to_string(v)), Some(v));
        assert_eq!(v.to_string(), i64_to_string(v));
    }
}
