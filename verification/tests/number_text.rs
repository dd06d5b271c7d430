use ipc_bench::number_text::{
    chars_of, format_decimal, format_hex_padded, format_signed_decimal, parse_unsigned,
    ParseIntFailure,
};

#[test]
fn parses_like_str_parse() {
    assert_eq!(parse_unsigned("0", 65535), Ok(0));
    assert_eq!(parse_unsigned("007", 65535), Ok(7));
    assert_eq!(parse_unsigned("+42", 65535), Ok(42));
    assert_eq!(parse_unsigned("65535", 65535), Ok(65535));
    assert_eq!(parse_unsigned("", 65535), Err(ParseIntFailure::Empty));
    assert_eq!(parse_unsigned("+", 65535), Err(ParseIntFailure::InvalidDigit));
    assert_eq!(parse_unsigned("-", 65535), Err(ParseIntFailure::InvalidDigit));
    assert_eq!(parse_unsigned("-3", 65535), Err(ParseIntFailure::InvalidDigit));
    assert_eq!(parse_unsigned("++3", 65535), Err(ParseIntFailure::InvalidDigit));
    assert_eq!(parse_unsigned("12a", 65535), Err(ParseIntFailure::InvalidDigit));
    assert_eq!(parse_unsigned("65536", 65535), Err(ParseIntFailure::PosOverflow));
    assert_eq!(parse_unsigned("99999x", 65535), Err(ParseIntFailure::PosOverflow));
    assert_eq!(parse_unsigned("9x9999", 65535), Err(ParseIntFailure::InvalidDigit));
    assert_eq!(parse_unsigned("٣", 65535), Err(ParseIntFailure::InvalidDigit));
    assert_eq!(
        parse_unsigned("18446744073709551615", u64::MAX),
        Ok(u64::MAX)
    );
    assert_eq!(
        parse_unsigned("18446744073709551616", u64::MAX),
        Err(ParseIntFailure::PosOverflow)
    );
}

#[test]
fn agrees_with_std_on_samples() {
    for text in ["", "+", "-", "0", "1", "+1", "-1", "65535", "65536", "1_000", " 1", "70000", "00065535"] {
        let ours = parse_unsigned(text, 65535).ok().map(|v| v as u16);
        assert_eq!(ours, text.parse::<u16>().ok(), "text {text:?}");
    }
}

#[test]
fn formats_like_display() {
    assert_eq!(format_decimal(0), "0");
    assert_eq!(format_decimal(9), "9");
    assert_eq!(format_decimal(10), "10");
    assert_eq!(format_decimal(1234567890), "1234567890");
    assert_eq!(format_decimal(u64::MAX as u128), u64::MAX.to_string());
    assert_eq!(format_decimal(u128::MAX), u128::MAX.to_string());
    assert_eq!(format_signed_decimal(0), "0");
    assert_eq!(format_signed_decimal(-1722), "-1722");
    assert_eq!(format_signed_decimal(i64::MIN), i64::MIN.to_string());
    assert_eq!(format_signed_decimal(i64::MAX), i64::MAX.to_string());
}

#[test]
fn formats_padded_upper_hex() {
    assert_eq!(format_hex_padded(0, 8), "00000000");
    assert_eq!(format_hex_padded(0xABC, 8), "00000ABC");
    assert_eq!(format_hex_padded(0xC000_0034, 8), format!("{:08X}", 0xC000_0034u32));
    assert_eq!(format_hex_padded(0x1_2345, 4), "2345");
}

#[test]
fn decimal_text_parses_back() {
    for n in [0u64, 1, 9, 10, 99, 100, 65535, 1 << 40, u64::MAX] {
        assert_eq!(parse_unsigned(&format_decimal(n as u128), u64::MAX), Ok(n));
    }
}

#[test]
fn chars_of_lists_characters() {
    assert_eq!(chars_of("aé\u{1F600}"), vec!['a', 'é', '\u{1F600}']);
    assert!(chars_of("").is_empty());
}
