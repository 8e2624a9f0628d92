use timhatdiehandandermaus::numeral::{decimal_string, parse_u8};

#[test]
fn decimal_numerals() {
    assert_eq!(decimal_string(0), "0");
    assert_eq!(decimal_string(7), "7");
    assert_eq!(decimal_string(10), "10");
    assert_eq!(decimal_string(409), "409");
    assert_eq!(decimal_string(1979), "1979");
    assert_eq!(decimal_string(1234567890), "1234567890");
    assert_eq!(decimal_string(u64::MAX), "18446744073709551615");
}

#[test]
fn decimal_numerals_agree_with_the_standard_library() {
    for n in 0..2000u64 {
        assert_eq!(decimal_string(n), n.to_string());
    }
}

#[test]
fn numbers_below_256() {
    assert_eq!(parse_u8("0"), Some(0));
    assert_eq!(parse_u8("7"), Some(7));
    assert_eq!(parse_u8("10"), Some(10));
    assert_eq!(parse_u8("255"), Some(255));
    assert_eq!(parse_u8("+255"), Some(255));
    assert_eq!(parse_u8("007"), Some(7));
    assert_eq!(parse_u8("0000000000000000255"), Some(255));
}

#[test]
fn texts_that_are_no_number_below_256() {
    for text in ["", "+", "-", "-1", "256", "1000", "99999999999999999999", "1 ", " 1", "1_0",
        "ten", "1.0", "++1", "1+", "\u{0661}"]
    {
        assert_eq!(parse_u8(text), None);
    }
}

#[test]
fn numbers_are_read_as_the_standard_library_reads_them() {
    for n in 0..1000u32 {
        let text = n.to_string();
        assert_eq!(parse_u8(&text), text.parse::<u8>().ok());
        let signed = format!("+{}", n);
        assert_eq!(parse_u8(&signed), signed.parse::<u8>().ok());
        let padded = format!("0{}x", n);
        assert_eq!(parse_u8(&padded), padded.parse::<u8>().ok());
    }
}

#[test]
fn numbers_are_read_back_from_their_numerals() {
    for n in 0..=255u8 {
        assert_eq!(parse_u8(&decimal_string(n as u64)), Some(n));
    }
    assert_eq!(parse_u8(&decimal_string(256)), None);
}
