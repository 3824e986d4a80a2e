use eth_indexer::hex::parse_hex;

#[test]
fn parses_prefixed_text() {
    assert_eq!(parse_hex("0x1a").unwrap(), 26);
}

#[test]
fn parses_bare_text() {
    assert_eq!(parse_hex("1a").unwrap(), 26);
}

#[test]
fn refuses_empty_text() {
    let e = parse_hex("").unwrap_err();
    assert_eq!(e.input, "");
}

#[test]
fn refuses_prefix_alone() {
    let e = parse_hex("0x").unwrap_err();
    assert_eq!(e.input, "");
}

#[test]
fn refuses_non_digits() {
    let e = parse_hex("0xgg").unwrap_err();
    assert_eq!(e.input, "gg");
}

#[test]
fn accepts_both_cases() {
    assert_eq!(parse_hex("0xAbCdEf").unwrap(), 0xabcdef);
}

#[test]
fn refuses_repeated_prefix() {
    let e = parse_hex("0x0x1a").unwrap_err();
    assert_eq!(e.input, "0x1a");
    assert_eq!(parse_hex("0x0x10").unwrap_err().input, "0x10");
    assert_eq!(parse_hex("0x0x").unwrap_err().input, "0x");
    assert!(parse_hex("0x0x0x1").is_err());
}

#[test]
fn removes_the_prefix_once() {
    assert_eq!(parse_hex("0x00").unwrap(), 0);
    assert_eq!(parse_hex("0x0").unwrap(), 0);
    assert_eq!(parse_hex("0x0a").unwrap(), 10);
}

#[test]
fn accepts_one_plus_sign() {
    assert_eq!(parse_hex("+ff").unwrap(), 255);
    assert_eq!(parse_hex("0x+ff").unwrap(), 255);
    assert!(parse_hex("+").is_err());
    assert!(parse_hex("++1").is_err());
    assert!(parse_hex("-1").is_err());
}

#[test]
fn refuses_inner_prefix_and_spaces() {
    assert!(parse_hex("1x0").is_err());
    assert!(parse_hex(" 1a").is_err());
    assert!(parse_hex("1a ").is_err());
    assert!(parse_hex("1_a").is_err());
    assert!(parse_hex("0X1a").is_err());
}

#[test]
fn largest_signed_value() {
    assert_eq!(parse_hex("0x7fffffffffffffff").unwrap(), i64::MAX);
}

#[test]
fn upper_half_wraps_to_negative() {
    assert_eq!(parse_hex("0x8000000000000000").unwrap(), i64::MIN);
    assert_eq!(parse_hex("0xffffffffffffffff").unwrap(), -1);
}

#[test]
fn refuses_more_than_64_bits() {
    let e = parse_hex("0x10000000000000000").unwrap_err();
    assert_eq!(e.input, "10000000000000000");
    assert!(parse_hex("0xffffffffffffffffff").is_err());
}

#[test]
fn leading_zeros_do_not_count() {
    assert_eq!(parse_hex("0x000000000000000000000001").unwrap(), 1);
}

#[test]
fn tenth_of_an_ether_in_wei() {
    assert_eq!(parse_hex("0x16345785d8a0000").unwrap(), 100_000_000_000_000_000);
}

#[test]
fn round_trip_on_chosen_values() {
    let values: Vec<i64> = vec![0, 1, 15, 16, 255, 4096, 1_700_000_000, i64::MAX - 1, i64::MAX];
    for n in values {
        let text = format!("{:x}", n);
        assert_eq!(parse_hex(&text).unwrap(), n);
        let prefixed = format!("0x{}", text);
        assert_eq!(parse_hex(&prefixed).unwrap(), parse_hex(&text).unwrap());
    }
}

#[test]
fn agrees_with_std_on_chosen_texts() {
    let texts = vec![
        "0", "00", "f", "F", "+0", "deadbeef", "g", "", "+", "ffffffffffffffff", "10000000000000000", "é", "0x",
        "0x1a", "0x0x1a", "0x+1", "+0x1", "0xx", "x0",
    ];
    for t in texts {
        let expected = u64::from_str_radix(t.strip_prefix("0x").unwrap_or(t), 16).ok().map(|v| v as i64);
        assert_eq!(parse_hex(t).ok(), expected);
    }
}
