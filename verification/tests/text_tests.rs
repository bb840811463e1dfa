use starknet_graph::text::{
    int_parse_error_text, parse_hex_quantity, push_signed_decimal, u64_to_decimal, IntParseError,
};

#[test]
fn decimal_rendering_matches_to_string() {
    for n in [0u64, 7, 10, 99, 100, 12345, u64::MAX] {
        assert_eq!(u64_to_decimal(n), n.to_string());
    }
}

#[test]
fn signed_decimal_rendering_matches_to_string() {
    for i in [0i64, 5, -1, -32602, i64::MIN, i64::MAX] {
        let mut s = String::from("code ");
        push_signed_decimal(&mut s, i);
        assert_eq!(s, format!("code {}", i));
    }
}

#[test]
fn hex_quantities_are_read_after_every_0x_prefix() {
    assert_eq!(parse_hex_quantity("0x1f"), Ok(31));
    assert_eq!(parse_hex_quantity("0x0x1F"), Ok(31));
    assert_eq!(parse_hex_quantity("+ff"), Ok(255));
    assert_eq!(parse_hex_quantity("ffffffffffffffff"), Ok(u64::MAX));
    assert_eq!(parse_hex_quantity(""), Err(IntParseError::Empty));
    assert_eq!(parse_hex_quantity("0x"), Err(IntParseError::Empty));
    assert_eq!(parse_hex_quantity("+"), Err(IntParseError::InvalidDigit));
    assert_eq!(parse_hex_quantity("-1"), Err(IntParseError::InvalidDigit));
    assert_eq!(parse_hex_quantity("0xzz"), Err(IntParseError::InvalidDigit));
    assert_eq!(parse_hex_quantity("10000000000000000"), Err(IntParseError::PosOverflow));
    assert_eq!(parse_hex_quantity("fffffffffffffffffz"), Err(IntParseError::PosOverflow));
    assert_eq!(parse_hex_quantity("g0000000000000000000"), Err(IntParseError::InvalidDigit));
}

fn std_reading(s: &str) -> Result<u64, String> {
    u64::from_str_radix(s.trim_start_matches("0x"), 16).map_err(|e| e.to_string())
}

#[test]
fn hex_quantities_agree_with_std() {
    let samples = [
        "", "0x", "0x0", "0x0x", "0x0x0x10", "+", "-", "+-1", "++1", "0x+1a", "0X1a", "1a2B3c",
        "ffffffffffffffff", "1ffffffffffffffff", "fffffffffffffffffz", "zfffffffffffffffff",
        "0xé", "é1", "00000000000000000000001", "0x00ff", " 1", "0x7fffffffffffffff",
    ];
    for s in samples {
        let ours = parse_hex_quantity(s).map_err(|e| int_parse_error_text(e).to_string());
        assert_eq!(ours, std_reading(s), "reading {:?}", s);
    }
}
