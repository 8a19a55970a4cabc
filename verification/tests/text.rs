use tileforge_crs::{IntErrorKind, parse_u16};

#[test]
fn parse_u16_accepts_what_str_parse_accepts() {
    for s in ["0", "7", "+7", "00042", "65535", "+65535"] {
        assert_eq!(parse_u16(s.as_bytes()), Ok(s.parse::<u16>().unwrap()), "{s}");
    }
}

#[test]
fn parse_u16_rejects_like_str_parse() {
    assert_eq!(parse_u16(b""), Err(IntErrorKind::Empty));
    assert_eq!(parse_u16(b"+"), Err(IntErrorKind::InvalidDigit));
    assert_eq!(parse_u16(b"-"), Err(IntErrorKind::InvalidDigit));
    assert_eq!(parse_u16(b"-5"), Err(IntErrorKind::InvalidDigit));
    assert_eq!(parse_u16(b" 5"), Err(IntErrorKind::InvalidDigit));
    assert_eq!(parse_u16(b"x99999"), Err(IntErrorKind::InvalidDigit));
    assert_eq!(parse_u16(b"65536"), Err(IntErrorKind::PosOverflow));
    assert_eq!(parse_u16(b"99999x"), Err(IntErrorKind::PosOverflow));
    assert_eq!(parse_u16(b"++1"), Err(IntErrorKind::InvalidDigit));
    for s in ["", "+", "-", "-5", " 5", "x99999", "65536", "99999x", "++1"] {
        assert!(s.parse::<u16>().is_err(), "{s}");
    }
}

#[test]
fn parse_u16_reads_back_the_decimal_rendering() {
    for n in [0u16, 9, 10, 255, 4978, 10000, 65534, 65535] {
        assert_eq!(parse_u16(n.to_string().as_bytes()), Ok(n), "{n}");
    }
}
