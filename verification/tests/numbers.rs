use mipstenite::numbers::{decimal_string, parse_i16, parse_u32};

#[test]
fn immediates_are_read_like_sixteen_bit_numbers() {
    assert_eq!(parse_i16("0"), Some(0));
    assert_eq!(parse_i16("45"), Some(45));
    assert_eq!(parse_i16("-6"), Some(-6));
    assert_eq!(parse_i16("+6"), Some(6));
    assert_eq!(parse_i16("-0"), Some(0));
    assert_eq!(parse_i16("007"), Some(7));
    assert_eq!(parse_i16("32767"), Some(32767));
    assert_eq!(parse_i16("+32767"), Some(32767));
    assert_eq!(parse_i16("-32768"), Some(-32768));
    assert_eq!(parse_i16("000000000000000000000032767"), Some(32767));
    for text in ["", "+", "-", "32768", "-32769", "+32768", "65536", " 1", "1 ", "1_0", "0x1", "--1", "+-1", "1-", "١", "4294967297", "18446744073709551617"] {
        assert_eq!(parse_i16(text), None);
        assert_eq!(parse_i16(text), text.parse::<i16>().ok());
    }
    for value in [i16::MIN, -1, 0, 1, 9, 10, 99, 100, 12345, i16::MAX] {
        assert_eq!(parse_i16(&value.to_string()), Some(value));
    }
}

#[test]
fn targets_are_read_like_unsigned_numbers() {
    assert_eq!(parse_u32("0"), Some(0));
    assert_eq!(parse_u32("123"), Some(123));
    assert_eq!(parse_u32("+123"), Some(123));
    assert_eq!(parse_u32("4294967295"), Some(u32::MAX));
    assert_eq!(parse_u32("0004294967295"), Some(u32::MAX));
    for text in ["", "+", "-", "-0", "-1", "4294967296", "42949672950", "1a", "a", " 1"] {
        assert_eq!(parse_u32(text), None);
        assert_eq!(parse_u32(text), text.parse::<u32>().ok());
    }
}

#[test]
fn counts_are_written_in_decimal() {
    assert_eq!(decimal_string(0), "0");
    assert_eq!(decimal_string(7), "7");
    assert_eq!(decimal_string(10), "10");
    assert_eq!(decimal_string(1234567890), "1234567890");
    assert_eq!(decimal_string(usize::MAX), usize::MAX.to_string());
}
