use montrade::address::parse_address;
use montrade::amount::Uint256;
use montrade::digits::parse_u64_dec;
use montrade::format::format_units18;
use montrade::units::parse_units18;

fn eth_parse(s: &str) -> ethers::types::U256 {
    ethers::utils::parse_units(s, 18).unwrap().into()
}

#[test]
fn parse_tenth_of_a_token() {
    let v = parse_units18("0.1").unwrap();
    assert_eq!(v, Uint256::from_u64(100_000_000_000_000_000));
}

#[test]
fn parse_integer_amount() {
    let v = parse_units18("2").unwrap();
    assert_eq!(v, Uint256::from_u128(2_000_000_000_000_000_000));
}

#[test]
fn parse_with_underscores() {
    let v = parse_units18("1_000.5").unwrap();
    assert_eq!(v, parse_units18("1000.5").unwrap());
}

#[test]
fn parse_truncates_past_eighteen_digits() {
    // The nineteenth fraction digit is dropped, not rounded.
    let v = parse_units18("0.1234567890123456789").unwrap();
    assert_eq!(v, parse_units18("0.123456789012345678").unwrap());
}

#[test]
fn parse_smallest_unit() {
    let v = parse_units18("0.000000000000000001").unwrap();
    assert_eq!(v, Uint256::from_u64(1));
}

#[test]
fn parse_bare_dot_forms() {
    assert!(parse_units18(".5").is_some());
    assert!(parse_units18("5.").is_some());
    assert!(parse_units18(".").is_none());
    assert!(parse_units18("").is_none());
}

#[test]
fn parse_rejects_junk() {
    assert!(parse_units18("abc").is_none());
    assert!(parse_units18("1.2.3").is_none());
    assert!(parse_units18("1x").is_none());
    assert!(parse_units18("-1").is_none());
    assert!(parse_units18("1 0").is_none());
}

#[test]
fn parse_rejects_overflow() {
    // 79 nines exceeds 2^256.
    let big = "9".repeat(79);
    assert!(parse_units18(&big).is_none());
}

#[test]
fn parse_matches_ethers() {
    for s in ["0.1", "15.230001000000000000", "1", "123.456", "1_000", "0.000000000000000001"] {
        let ours = parse_units18(s).unwrap();
        let eth = eth_parse(s);
        assert_eq!([ours.l0, ours.l1, ours.l2, ours.l3], eth.0, "mismatch on {s}");
    }
}

#[test]
fn parse_u64_plain() {
    assert_eq!(parse_u64_dec("600"), Some(600));
    assert_eq!(parse_u64_dec("0"), Some(0));
    assert_eq!(parse_u64_dec("18446744073709551615"), Some(u64::MAX));
}

#[test]
fn parse_u64_rejects() {
    assert_eq!(parse_u64_dec(""), None);
    assert_eq!(parse_u64_dec("12a"), None);
    assert_eq!(parse_u64_dec("-1"), None);
    assert_eq!(parse_u64_dec("18446744073709551616"), None);
}

#[test]
fn address_roundtrip() {
    let a = parse_address("0x00112233445566778899aAbBcCdDeEfF00112233").unwrap();
    let eth: ethers::types::Address = "0x00112233445566778899aAbBcCdDeEfF00112233".parse().unwrap();
    assert_eq!(a.bytes.as_slice(), eth.as_bytes());
}

#[test]
fn address_without_prefix() {
    let a = parse_address("00112233445566778899aabbccddeeff00112233").unwrap();
    let b = parse_address("0x00112233445566778899aabbccddeeff00112233").unwrap();
    assert_eq!(a.bytes, b.bytes);
}

#[test]
fn address_rejects_bad_input() {
    assert!(parse_address("").is_none());
    assert!(parse_address("0x1234").is_none());
    assert!(parse_address("0x00112233445566778899aabbccddeeff0011223g").is_none());
    assert!(parse_address("0x00112233445566778899aabbccddeeff001122334").is_none());
}

#[test]
fn format_whole_and_fraction() {
    let s: String = format_units18(&Uint256::from_u128(1_980_000_000_000_000_000))
        .into_iter()
        .collect();
    assert_eq!(s, "1.980000000000000000");
}

#[test]
fn format_zero() {
    let s: String = format_units18(&Uint256::from_u64(0)).into_iter().collect();
    assert_eq!(s, "0.000000000000000000");
}

#[test]
fn format_matches_ethers() {
    for v in [0u128, 1, 100_000_000_000_000_000, 1_395_633_240_123_456_789, 2_000_000_000_000_000_000] {
        let ours: String = format_units18(&Uint256::from_u128(v)).into_iter().collect();
        let eth = ethers::utils::format_units(ethers::types::U256::from(v), 18).unwrap();
        assert_eq!(ours, eth, "mismatch on {v}");
    }
}

#[test]
fn parse_exact_top_of_range() {
    // (2^256 - 1) units, written as tokens with 18 decimal places.
    let max_tokens = "115792089237316195423570985008687907853269984665640564039457.584007913129639935";
    let v = parse_units18(max_tokens).unwrap();
    assert_eq!([v.l0, v.l1, v.l2, v.l3], [u64::MAX; 4]);
    let one_more = "115792089237316195423570985008687907853269984665640564039457.584007913129639936";
    assert!(parse_units18(one_more).is_none());
}

#[test]
fn format_top_of_range_matches_ethers() {
    let max = Uint256::from_limbs(u64::MAX, u64::MAX, u64::MAX, u64::MAX);
    let ours: String = format_units18(&max).into_iter().collect();
    let eth = ethers::utils::format_units(ethers::types::U256::MAX, 18).unwrap();
    assert_eq!(ours, eth);
}

#[test]
fn format_then_parse_round_trip() {
    for v in [0u128, 1, 999_999_999_999_999_999, 1_000_000_000_000_000_000, 360_123_456_789_000_000_000_000_000] {
        let a = Uint256::from_u128(v);
        let text: String = format_units18(&a).into_iter().collect();
        assert_eq!(parse_units18(&text), Some(a), "round trip failed on {v}");
    }
}
