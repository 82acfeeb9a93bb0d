use openads::decimal::{parse_u16, parse_u64, u16_to_decimal, u64_to_decimal};

#[test]
fn parse_u16_reads_plain_digits() {
    assert_eq!(parse_u16("42"), Some(42));
    assert_eq!(parse_u16("0"), Some(0));
    assert_eq!(parse_u16("65535"), Some(65535));
    assert_eq!(parse_u16("0046d"), None);
    assert_eq!(parse_u16("046"), Some(46));
}

#[test]
fn parse_u16_takes_one_plus_sign() {
    assert_eq!(parse_u16("+7"), Some(7));
    assert_eq!(parse_u16("+"), None);
    assert_eq!(parse_u16("++7"), None);
    assert_eq!(parse_u16("-1"), None);
}

#[test]
fn parse_u16_refuses_what_std_refuses() {
    for s in ["", " 1", "1 ", "65536", "99999999999999999999", "1a", "abc"] {
        assert_eq!(parse_u16(s), s.parse::<u16>().ok(), "input {:?}", s);
    }
    assert_eq!(parse_u16("65536"), None);
}

#[test]
fn parse_u64_matches_std() {
    for s in ["18446744073709551615", "18446744073709551616", "+0", "4294967296", "", "x", "12x"] {
        assert_eq!(parse_u64(s), s.parse::<u64>().ok(), "input {:?}", s);
    }
    assert_eq!(parse_u64("18446744073709551615"), Some(u64::MAX));
}

#[test]
fn decimal_text_of_numbers() {
    assert_eq!(u16_to_decimal(0), "0");
    assert_eq!(u16_to_decimal(1133), "1133");
    assert_eq!(u16_to_decimal(65535), "65535");
    assert_eq!(u64_to_decimal(u64::MAX), u64::MAX.to_string());
    assert_eq!(u64_to_decimal(1000), "1000");
}

#[test]
fn decimal_text_reads_back() {
    for n in [0u16, 9, 10, 99, 100, 1133, 2341, 32768, 65535] {
        assert_eq!(parse_u16(&u16_to_decimal(n)), Some(n));
        assert_eq!(u16_to_decimal(n), n.to_string());
    }
}
