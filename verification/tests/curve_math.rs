//! Tests for the pure bonding-curve math.

use sames::curve::bonding_curve_cost;
use sames::curve::bonding_curve_price;
use sames::curve::bonding_curve_tokens_for_sol;
use sames::curve::isqrt_u128;

#[test]
fn flat_cost_example() {
    // Flat curve: cost is just base price times amount.
    assert_eq!(bonding_curve_cost(1000, 0, 0, 10), Some(10_000));
    assert_eq!(bonding_curve_cost(7, 0, 5, 13), Some(91));
    assert_eq!(bonding_curve_cost(1000, 0, 123_456, 0), Some(0));
}

#[test]
fn flat_tokens_for_funds_example() {
    // Flat curve: tokens are funds divided by the base price, floored.
    assert_eq!(bonding_curve_tokens_for_sol(1000, 0, 0, 10_000), Some(10));
    assert_eq!(bonding_curve_tokens_for_sol(1000, 0, 0, 10_999), Some(10));
    assert_eq!(bonding_curve_tokens_for_sol(1000, 0, 0, 999), Some(0));
}

#[test]
fn flat_round_trip() {
    // Buying then inverting the cost gives the amount back exactly.
    for amount in [1u64, 10, 999, 123_456_789] {
        let c = bonding_curve_cost(1000, 0, 777, amount).unwrap();
        assert_eq!(bonding_curve_tokens_for_sol(1000, 0, 777, c), Some(amount));
    }
}

#[test]
fn sloped_round_trip_example() {
    // slope_scaled = 2e9 means one funds unit of price growth per token.
    let c = bonding_curve_cost(1, 2_000_000_000, 0, 10).unwrap();
    assert_eq!(c, 110);
    assert_eq!(bonding_curve_tokens_for_sol(1, 2_000_000_000, 0, 110), Some(10));
}

#[test]
fn sloped_round_trip_exact() {
    // Converting a cost back through the inverse returns the bought
    // amount exactly, on a sloped curve too: 1000 tokens cost 1_000_000
    // at the default slope, and 1_000_000 buys back exactly 1000.
    assert_eq!(bonding_curve_cost(1000, 100, 0, 1000), Some(1_000_000));
    assert_eq!(bonding_curve_tokens_for_sol(1000, 100, 0, 1_000_000), Some(1000));
    for amount in [1u64, 10, 1000, 123_456, 90_000_000] {
        let c = bonding_curve_cost(1000, 100, 777, amount).unwrap();
        assert_eq!(bonding_curve_tokens_for_sol(1000, 100, 777, c), Some(amount));
    }
}

#[test]
fn inverse_never_allocates_more_than_paid() {
    // The inverse is a floor: the exact cost of what it returns never
    // exceeds the funds offered, and one more token would.
    let cases: [(u64, u64, u64, u64); 4] = [
        (1, 1, 999_999_999, 2_000_000_000),
        (1000, 100, 0, 99_999_999_999),
        (7, 0, 3, 1_000_000),
        (1000, 2_000_000_000, 5, 123_456_789),
    ];
    for (base, slope, sold, funds) in cases {
        let t = bonding_curve_tokens_for_sol(base, slope, sold, funds).unwrap();
        assert!(bonding_curve_cost(base, slope, sold, t).unwrap() <= funds);
        let over = bonding_curve_cost(base, slope, sold, t + 1);
        assert!(over.is_none() || over.unwrap() > funds);
    }
}

#[test]
fn zero_base_price_is_overflow() {
    // With a zero base price there is no greatest affordable amount.
    assert_eq!(bonding_curve_tokens_for_sol(0, 0, 0, 1000), None);
    assert_eq!(bonding_curve_tokens_for_sol(0, 100, 50, 1000), None);
}

#[test]
fn cost_overflow_reported() {
    // The result would exceed u64::MAX: the cost signals overflow.
    assert_eq!(bonding_curve_cost(u64::MAX, 0, 0, 2), None);
    // The double-width product overflows u128.
    assert_eq!(bonding_curve_cost(1, u64::MAX, u64::MAX, u64::MAX), None);
}

#[test]
fn spot_price_formula() {
    // price = base + slope * sold / 1e9.
    assert_eq!(bonding_curve_price(1000, 100, 10_000_000), 1001);
    // The price has doubled once 1e10 tokens are sold at this slope.
    assert_eq!(bonding_curve_price(1000, 100, 10_000_000_000), 2000);
    assert_eq!(bonding_curve_price(1000, 0, u64::MAX), 1000);
    assert_eq!(bonding_curve_price(0, 1_000_000_000, 5), 5);
}

#[test]
fn spot_price_saturates() {
    assert_eq!(bonding_curve_price(u64::MAX, u64::MAX, u64::MAX), u64::MAX);
    assert_eq!(bonding_curve_price(1, u64::MAX, u64::MAX), u64::MAX);
}

#[test]
fn tokens_for_funds_monotone_in_funds() {
    let mut last = 0u64;
    for funds in [0u64, 1000, 10_000, 10_000_000_000, 100_000_000_000, u64::MAX] {
        let t = bonding_curve_tokens_for_sol(1000, 100, 0, funds).unwrap();
        assert!(t >= last);
        last = t;
    }
}

#[test]
fn tokens_for_funds_antitone_in_sold() {
    let mut last = u64::MAX;
    for sold in [0u64, 1000, 10_000_000, 10_000_000_000, 100_000_000_000] {
        let t = bonding_curve_tokens_for_sol(1000, 100, sold, 100_000_000_000).unwrap();
        assert!(t <= last);
        last = t;
    }
}

#[test]
fn isqrt_small_values() {
    assert_eq!(isqrt_u128(0), 0);
    assert_eq!(isqrt_u128(1), 1);
    assert_eq!(isqrt_u128(2), 1);
    assert_eq!(isqrt_u128(3), 1);
    assert_eq!(isqrt_u128(4), 2);
    assert_eq!(isqrt_u128(15), 3);
    assert_eq!(isqrt_u128(16), 4);
    assert_eq!(isqrt_u128(999_999), 999);
    assert_eq!(isqrt_u128(1_000_000), 1000);
}

#[test]
fn isqrt_extremes() {
    assert_eq!(isqrt_u128(u128::MAX), u64::MAX as u128);
    let exact = (1u128 << 64) - 1;
    assert_eq!(isqrt_u128(exact * exact), exact);
    assert_eq!(isqrt_u128(exact * exact + 1), exact);
    assert_eq!(isqrt_u128(exact * exact - 1), exact - 1);
}
