use guildchat::api::number::parse_unsigned;
use guildchat::api::permission::parse_permission_string;

fn std_reading(text: &str) -> u64 {
    text.parse::<u64>()
        .unwrap_or_else(|_| u64::from_str_radix(text, 16).unwrap_or(0))
}

#[test]
fn decimal_text_is_read_as_decimal() {
    assert_eq!(parse_permission_string("1024"), 1024);
    assert_eq!(parse_permission_string("0"), 0);
    assert_eq!(parse_permission_string("8"), 8);
}

#[test]
fn decimal_reading_wins_over_hexadecimal() {
    assert_eq!(parse_permission_string("4000000000"), 4_000_000_000);
    assert_ne!(parse_permission_string("4000000000"), 0x40_0000_0000);
    assert_eq!(parse_permission_string("10"), 10);
}

#[test]
fn text_that_is_no_numeral_grants_nothing() {
    assert_eq!(parse_permission_string("zz"), 0);
    assert_eq!(parse_permission_string(""), 0);
    assert_eq!(parse_permission_string("+"), 0);
    assert_eq!(parse_permission_string("-1"), 0);
    assert_eq!(parse_permission_string(" 12"), 0);
    assert_eq!(parse_permission_string("12 "), 0);
    assert_eq!(parse_permission_string("1_000"), 0);
    assert_eq!(parse_permission_string("0x10"), 0);
    assert_eq!(parse_permission_string("é"), 0);
    assert_eq!(parse_permission_string("١٢"), 0);
}

#[test]
fn hexadecimal_text_is_read_when_decimal_fails() {
    assert_eq!(parse_permission_string("ff"), 255);
    assert_eq!(parse_permission_string("FF"), 255);
    assert_eq!(parse_permission_string("4a0"), 0x4a0);
    assert_eq!(parse_permission_string("+1f"), 31);
    assert_eq!(parse_permission_string("ffffffffffffffff"), u64::MAX);
}

#[test]
fn a_leading_plus_sign_is_accepted() {
    assert_eq!(parse_permission_string("+1024"), 1024);
    assert_eq!(parse_permission_string("++1"), 0);
}

#[test]
fn values_beyond_64_bits_are_not_numerals() {
    assert_eq!(parse_permission_string("18446744073709551615"), u64::MAX);
    // Too large as a decimal numeral, and too large as a hexadecimal one.
    assert_eq!(parse_permission_string("18446744073709551616"), 0);
    assert_eq!(parse_permission_string("10000000000000000f"), 0);
    // Leading zeros do not count towards the size.
    assert_eq!(parse_permission_string("000000000000000000000001024"), 1024);
    assert_eq!(parse_permission_string("00000000000000000000000000ff"), 255);
}

#[test]
fn parse_unsigned_reads_each_radix() {
    assert_eq!(parse_unsigned("101", 2), Some(5));
    assert_eq!(parse_unsigned("102", 2), None);
    assert_eq!(parse_unsigned("zz", 36), Some(35 * 36 + 35));
    assert_eq!(parse_unsigned("Zz", 36), Some(35 * 36 + 35));
    assert_eq!(parse_unsigned("z", 35), None);
    assert_eq!(parse_unsigned("777", 8), Some(0o777));
    assert_eq!(parse_unsigned("", 10), None);
    assert_eq!(parse_unsigned("+", 10), None);
    assert_eq!(parse_unsigned("+0", 10), Some(0));
}

#[test]
fn parse_unsigned_agrees_with_the_standard_library() {
    let samples = [
        "", "+", "-", "0", "+0", "-0", "00", "7", "42", "+42", "-42", "4 2", "42\n", "\t42", "1024",
        "4000000000", "zz", "ff", "FF", "fF", "g", "0x1f", "1e3", "1.0", "١", "１２", "é1",
        "18446744073709551615", "18446744073709551616", "99999999999999999999",
        "ffffffffffffffff", "10000000000000000", "+ffffffffffffffff", "0000000000000000000000001",
        "3w5e11264sgsf", "3w5e11264sgsg", "1111111111111111111111111111111111111111111111111111111111111111",
        "11111111111111111111111111111111111111111111111111111111111111111", "+-1", "++1", "_1", "1_",
    ];
    for text in samples {
        for radix in 2u8..=36 {
            assert_eq!(
                parse_unsigned(text, radix),
                u64::from_str_radix(text, radix as u32).ok(),
                "{:?} in radix {}",
                text,
                radix
            );
        }
        assert_eq!(parse_unsigned(text, 10), text.parse::<u64>().ok(), "{:?}", text);
        assert_eq!(parse_permission_string(text), std_reading(text), "{:?}", text);
    }
}
