use sparko_embedded_std::color::{format_opt_rgb8, format_rgb8, parse_rgb8, ColorError, Rgb8};

#[test]
fn parse_rgb8_accepts_hash_prefixed_hex_strings() {
    let color = parse_rgb8("#00ff00").expect("should parse green");
    assert_eq!(color, Rgb8 { r: 0, g: 255, b: 0 });
}

#[test]
fn parse_rgb8_accepts_hash_prefixed_hex_strings_red() {
    let color = parse_rgb8("#ff0000").expect("should parse red");
    assert_eq!(color, Rgb8 { r: 255, g: 0, b: 0 });
}

#[test]
fn parse_rgb8_accepts_plain_hex_strings() {
    let color = parse_rgb8("ff00ff").expect("should parse magenta");
    assert_eq!(color, Rgb8 { r: 255, g: 0, b: 255 });
}

#[test]
fn parse_rgb8_returns_err_for_invalid_length() {
    assert!(parse_rgb8("#123").is_err());
    assert!(parse_rgb8("12345").is_err());
}

#[test]
fn parse_rgb8_returns_err_for_invalid_hex() {
    assert!(parse_rgb8("#gg0000").is_err());
    assert!(parse_rgb8("zzzzzz").is_err());
}

#[test]
fn format_rgb8_emits_lowercase_hex_with_hash_prefix() {
    let color = Rgb8 { r: 1, g: 2, b: 3 };
    assert_eq!(format_rgb8(&color), "#010203");
}

#[test]
fn format_and_parse_rgb8_roundtrip() {
    let original = Rgb8 { r: 18, g: 52, b: 86 };
    let formatted = format_rgb8(&original);
    let reparsed = parse_rgb8(&formatted).expect("roundtrip parse should succeed");
    assert_eq!(reparsed, original);
}

#[test]
fn format_rgb8_uses_lowercase_letters() {
    assert_eq!(format_rgb8(&Rgb8 { r: 0xab, g: 0xcd, b: 0xef }), "#abcdef");
}

#[test]
fn parse_rgb8_accepts_uppercase_and_repeated_hashes() {
    assert_eq!(parse_rgb8("##ABCDEF"), Ok(Rgb8 { r: 0xab, g: 0xcd, b: 0xef }));
}

#[test]
fn parse_rgb8_error_variants() {
    assert!(matches!(parse_rgb8("#1234567"), Err(ColorError::InvalidLength)));
    assert!(matches!(parse_rgb8("#12345g"), Err(ColorError::InvalidDigit)));
}

#[test]
fn parse_rgb8_reads_a_plus_sign_as_from_str_radix_does() {
    assert_eq!(parse_rgb8("+f+f+f"), Ok(Rgb8 { r: 15, g: 15, b: 15 }));
}

#[test]
fn format_opt_rgb8_of_nothing_is_empty() {
    assert_eq!(format_opt_rgb8(&None), "");
    assert_eq!(format_opt_rgb8(&Some(Rgb8 { r: 255, g: 255, b: 255 })), "#ffffff");
}
