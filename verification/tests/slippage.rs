use montrade::amount::{apply_slippage, Uint256};

#[test]
fn slippage_hundred_bps_example() {
    let q = Uint256::from_u64(1_000_000);
    let r = apply_slippage(&q, 100);
    assert_eq!(r, Uint256::from_u64(990_000));
}

#[test]
fn slippage_zero_keeps_quote() {
    let q = Uint256::from_u64(123_456_789);
    assert_eq!(apply_slippage(&q, 0), q);
    let big = Uint256::from_u128(2_000_000_000_000_000_000);
    assert_eq!(apply_slippage(&big, 0), big);
}

#[test]
fn slippage_full_gives_zero() {
    let q = Uint256::from_u64(987_654_321);
    assert!(apply_slippage(&q, 10_000).is_zero());
}

#[test]
fn slippage_floor_division() {
    // 999 * 9999 / 10000 = 9989001 / 10000 = 998 (floor)
    let q = Uint256::from_u64(999);
    assert_eq!(apply_slippage(&q, 1), Uint256::from_u64(998));
}

#[test]
fn slippage_matches_ethers_formula() {
    let cases: [(u128, u64); 4] = [
        (2_000_000_000_000_000_000, 100),
        (1_000_000, 100),
        (123_456_789_012_345_678, 37),
        (5, 9_999),
    ];
    for (qv, bps) in cases {
        let ours = apply_slippage(&Uint256::from_u128(qv), bps);
        let eth = ethers::types::U256::from(qv) * ethers::types::U256::from(10_000u64 - bps)
            / ethers::types::U256::from(10_000u64);
        assert_eq!([ours.l0, ours.l1, ours.l2, ours.l3], eth.0);
    }
}

#[test]
fn checked_arithmetic_at_the_limit() {
    let max = Uint256::from_limbs(u64::MAX, u64::MAX, u64::MAX, u64::MAX);
    assert!(max.checked_add_u64(1).is_none());
    assert!(max.checked_mul_u64(2).is_none());
    assert_eq!(max.checked_mul_u64(1), Some(max));
    let (q, r) = max.div_rem_u64(1);
    assert_eq!(q, max);
    assert_eq!(r, 0);
}

#[test]
fn div_rem_small_values() {
    let v = Uint256::from_u64(1_000_001);
    let (q, r) = v.div_rem_u64(10_000);
    assert_eq!(q, Uint256::from_u64(100));
    assert_eq!(r, 1);
}
