//! Pure bonding-curve math.
//!
//! The price of the `sold`-th token unit is linear in `sold`:
//! `price(sold) = base_price + slope * sold / SCALE`, with `slope` a
//! fixed-point value scaled by `SCALE = 1e9` so that sub-unit slopes can be
//! carried in integer arithmetic.
//!
//! Three total functions are provided, all free of panics for every input:
//! - [`bonding_curve_cost`]: funds needed to buy `amount` units starting at
//!   cumulative `tokens_sold` (the closed-form integral of the price line).
//! - [`bonding_curve_tokens_for_sol`]: the inverse — the greatest amount
//!   whose exact cost the funds cover, so that cost and inverse agree:
//!   the round trip is exact and the inverse never allocates more than
//!   paid for.
//! - [`bonding_curve_price`]: the current marginal (spot) price, saturating
//!   at `u64::MAX` instead of overflowing.
//!
//! Each executable function is pinned to a spec-level counterpart computed
//! in unbounded integers, together with an exact characterisation of the
//! inputs on which it reports `MathOverflow` (returns `None`).
//!
//! An integer square root (Newton's method) completes the kit for
//! market-cap style derived quantities.

use vstd::arithmetic::div_mod::*;
use vstd::prelude::*;

verus! {

/// Fixed-point scale for the curve slope: slopes are given in units of
/// 1e-9 funds per token per token.
pub const SLOPE_SCALE: u64 = 1_000_000_000;

/// Twice the slope scale, the divisor in the closed-form cost integral.
pub const TWO_SLOPE_SCALE: u64 = 2_000_000_000;

// ─────────────────────────────────────────────────────────────────────────
// Integer square root, specified as the floor of the real square root.
// ─────────────────────────────────────────────────────────────────────────

/// `r` is the floor of the square root of `n`.
pub open spec fn is_sqrt_floor(n: int, r: int) -> bool {
    &&& 0 <= r
    &&& r * r <= n
    &&& n < (r + 1) * (r + 1)
}

/// The floor of the square root of `n` (meaningful for `n >= 0`;
/// see `lemma_sqrt_floor_exists`).
pub open spec fn sqrt_floor(n: int) -> int {
    choose|r: int| is_sqrt_floor(n, r)
}

/// Monotonicity of squaring, used to compare square-root candidates.
proof fn lemma_square_ordered(a: int, b: int)
    by (nonlinear_arith)
    requires
        0 <= a,
        a <= b,
    ensures
        a * a <= b * b,
{
}

/// A square root witness exists for every nonnegative `n`, so `sqrt_floor`
/// denotes the genuine floor of the square root.
pub proof fn lemma_sqrt_floor_exists(n: int)
    requires
        0 <= n,
    ensures
        is_sqrt_floor(n, sqrt_floor(n)),
    decreases n,
{
    if n == 0 {
        assert(is_sqrt_floor(0, 0));
    } else {
        lemma_sqrt_floor_exists(n - 1);
        let r = sqrt_floor(n - 1);
        if n < (r + 1) * (r + 1) {
            assert(is_sqrt_floor(n, r));
        } else {
            // n - 1 < (r + 1)^2 <= n, so n == (r + 1)^2.
            assert(n == (r + 1) * (r + 1));
            assert((r + 1) * (r + 1) < (r + 2) * (r + 2)) by (nonlinear_arith)
                requires
                    0 <= r;
            assert(is_sqrt_floor(n, r + 1));
        }
    }
}

/// The square-root floor is unique: any witness equals `sqrt_floor`.
pub proof fn lemma_sqrt_floor_unique(n: int, r: int)
    requires
        is_sqrt_floor(n, r),
    ensures
        r == sqrt_floor(n),
{
    lemma_sqrt_floor_exists(n);
    let s = sqrt_floor(n);
    if r < s {
        lemma_square_ordered(r + 1, s);
        assert(false);
    }
    if s < r {
        lemma_square_ordered(s + 1, r);
        assert(false);
    }
}

/// Products grow with their factors; the workhorse bound for showing that
/// double-width intermediates fit in `u128`.
pub(crate) proof fn lemma_mul_le(x: int, y: int, xb: int, yb: int)
    by (nonlinear_arith)
    requires
        0 <= x,
        x <= xb,
        0 <= y,
        y <= yb,
    ensures
        x * y <= xb * yb,
{
}

/// The square-root floor of `n` is at most `n / 2 + 1`, the Newton
/// iteration's starting point.
proof fn lemma_sqrt_floor_upper_half(n: int, s: int)
    requires
        1 <= n,
        is_sqrt_floor(n, s),
    ensures
        s <= n / 2 + 1,
{
    if s >= 2 {
        assert(2 * s <= s * s) by (nonlinear_arith)
            requires
                2 <= s;
        lemma_div_is_ordered(2 * s, n, 2);
        lemma_div_multiples_vanish(s, 2);
    }
}

/// One Newton step never undershoots the square-root floor: with
/// `x >= sqrt_floor(n)` and `q = n / x`, also `(x + q) / 2 >= sqrt_floor(n)`.
proof fn lemma_newton_step_lower(n: int, s: int, x: int, q: int)
    by (nonlinear_arith)
    requires
        0 <= s,
        s * s <= n,
        n < (s + 1) * (s + 1),
        s <= x,
        1 <= x,
        x * q <= n,
        n < x * q + x,
    ensures
        x + q >= 2 * s,
{
}

/// A positive number has a positive square-root floor.
proof fn lemma_sqrt_floor_pos(n: int, s: int)
    by (nonlinear_arith)
    requires
        1 <= n,
        is_sqrt_floor(n, s),
    ensures
        1 <= s,
{
}

/// Division facts for `q = n / x`: `x * q <= n < x * q + x`.
proof fn lemma_div_sandwich(n: int, x: int)
    requires
        0 <= n,
        1 <= x,
    ensures
        x * (n / x) <= n,
        n < x * (n / x) + x,
{
    lemma_fundamental_div_mod(n, x);
    lemma_mod_division_less_than_divisor(n, x);
}

/// Integer square root by Newton's method: deterministic, and converges to
/// the floor of the real square root for every `u128` input.
pub fn isqrt_u128(n: u128) -> (r: u128)
    ensures
        is_sqrt_floor(n as int, r as int),
        r as int == sqrt_floor(n as int),
{
    proof {
        lemma_sqrt_floor_exists(n as int);
    }
    let ghost s: int = sqrt_floor(n as int);
    if n == 0 {
        proof {
            lemma_sqrt_floor_unique(0, 0);
        }
        return 0;
    }
    proof {
        lemma_sqrt_floor_upper_half(n as int, s);
        lemma_sqrt_floor_pos(n as int, s);
    }
    let mut x: u128 = n / 2 + 1;
    let mut y: u128 = isqrt_step(n, x, Ghost(s));
    while y < x
        invariant
            1 <= n,
            1 <= s,
            1 <= x,
            x <= n / 2 + 1,
            s <= x as int,
            is_sqrt_floor(n as int, s),
            y as int == (x as int + n as int / (x as int)) / 2,
            s <= y as int,
        decreases x,
    {
        x = y;
        y = isqrt_step(n, x, Ghost(s));
    }
    proof {
        // On exit y >= x, so n / x >= x, hence x * x <= n; with s <= x
        // this forces x == s.
        let q = n as int / (x as int);
        lemma_div_sandwich(n as int, x as int);
        assert(x as int + q >= 2 * (x as int)) by {
            if x as int + q < 2 * (x as int) {
                lemma_div_is_ordered(x as int + q, 2 * (x as int) - 1, 2);
                lemma_div_multiples_vanish(x as int, 2);
                assert((2 * (x as int) - 1) / 2 < x as int) by {
                    lemma_fundamental_div_mod(2 * (x as int) - 1, 2);
                    lemma_mod_division_less_than_divisor(2 * (x as int) - 1, 2);
                }
            }
        }
        assert((x as int) * (x as int) <= n as int) by (nonlinear_arith)
            requires
                1 <= x as int,
                (x as int) * q <= n as int,
                q >= x as int;
        if s < x as int {
            lemma_square_ordered(s + 1, x as int);
            assert(false);
        }
    }
    x
}

/// One Newton iteration `(x + n / x) / 2`, shown to stay at or above the
/// square-root floor and free of overflow.
fn isqrt_step(n: u128, x: u128, Ghost(s): Ghost<int>) -> (y: u128)
    requires
        1 <= n,
        1 <= s,
        1 <= x,
        x <= n / 2 + 1,
        is_sqrt_floor(n as int, s),
        s <= x as int,
    ensures
        y as int == (x as int + n as int / (x as int)) / 2,
        s <= y as int,
{
    proof {
        // n / x <= n / s <= s + 2, so the sum fits comfortably in u128.
        lemma_div_sandwich(n as int, x as int);
        lemma_div_is_ordered_by_denominator(n as int, s, x as int);
        // n <= s^2 + 2s, hence n / s <= s + 2.
        assert(n as int <= s * s + 2 * s) by (nonlinear_arith)
            requires
                (n as int) < (s + 1) * (s + 1);
        assert((s * s + 2 * s) == s * (s + 2)) by (nonlinear_arith);
        lemma_div_is_ordered(n as int, s * (s + 2), s);
        lemma_div_multiples_vanish(s + 2, s);
        assert(s < 0x1_0000_0000_0000_0000) by (nonlinear_arith)
            requires
                0 <= s,
                s * s <= n as int,
                n as int <= u128::MAX;
        lemma_newton_step_lower(n as int, s, x as int, n as int / (x as int));
        lemma_div_is_ordered(2 * s, x as int + n as int / (x as int), 2);
        lemma_div_multiples_vanish(s, 2);
    }
    let q: u128 = n / x;
    (x + q) / 2
}

// ─────────────────────────────────────────────────────────────────────────
// Cost to buy on the curve.
// ─────────────────────────────────────────────────────────────────────────

/// The double-width product in the cost integral, before scaling down.
pub open spec fn cost_slope_part(slope: int, sold: int, amount: int) -> int {
    slope * amount * (2 * sold + amount)
}

/// Funds required to buy `amount` units starting at cumulative `sold`:
/// the closed-form integral of the linear price,
/// `base * amount + slope * amount * (2 * sold + amount) / (2 * SCALE)`.
pub open spec fn curve_cost_int(base: int, slope: int, sold: int, amount: int) -> int {
    base * amount + cost_slope_part(slope, sold, amount) / 2_000_000_000
}

/// The inputs on which the cost computation succeeds: the double-width
/// product fits in `u128` and the result fits in `u64`.
pub open spec fn curve_cost_ok(base: int, slope: int, sold: int, amount: int) -> bool {
    &&& cost_slope_part(slope, sold, amount) <= u128::MAX
    &&& curve_cost_int(base, slope, sold, amount) <= u64::MAX
}

/// Cost in funds units to buy `amount` tokens on the bonding curve,
/// or `None` exactly when the result cannot be represented.
pub fn bonding_curve_cost(base_price: u64, slope_scaled: u64, tokens_sold: u64, amount: u64) -> (r:
    Option<u64>)
    ensures
        r is Some <==> curve_cost_ok(
            base_price as int,
            slope_scaled as int,
            tokens_sold as int,
            amount as int,
        ),
        r matches Some(c) ==> c == curve_cost_int(
            base_price as int,
            slope_scaled as int,
            tokens_sold as int,
            amount as int,
        ),
{
    proof {
        lemma_mul_le(base_price as int, amount as int, u64::MAX as int, u64::MAX as int);
        lemma_mul_le(slope_scaled as int, amount as int, u64::MAX as int, u64::MAX as int);
    }
    let base_cost: u128 = (base_price as u128) * (amount as u128);
    let two_sold_plus_amount: u128 = 2 * (tokens_sold as u128) + (amount as u128);
    let slope_amount: u128 = (slope_scaled as u128) * (amount as u128);
    let slope_part: u128 = match slope_amount.checked_mul(two_sold_plus_amount) {
        Some(v) => v,
        None => {
            return None;
        },
    };
    let slope_cost: u128 = slope_part / 2_000_000_000u128;
    let total: u128 = match base_cost.checked_add(slope_cost) {
        Some(v) => v,
        None => {
            return None;
        },
    };
    if total > u64::MAX as u128 {
        None
    } else {
        Some(total as u64)
    }
}
// ─────────────────────────────────────────────────────────────────────────
// Spot price.
// ─────────────────────────────────────────────────────────────────────────

/// The current marginal price, saturating at `u64::MAX`.
pub open spec fn spot_price_int(base: int, slope: int, sold: int) -> int {
    let p = base + slope * sold / 1_000_000_000;
    if p > u64::MAX {
        u64::MAX as int
    } else {
        p
    }
}

/// Current spot price on the bonding curve; saturates at the representable
/// maximum rather than overflowing.
pub fn bonding_curve_price(base_price: u64, slope_scaled: u64, tokens_sold: u64) -> (r: u64)
    ensures
        r == spot_price_int(base_price as int, slope_scaled as int, tokens_sold as int),
{
    proof {
        lemma_mul_le(slope_scaled as int, tokens_sold as int, u64::MAX as int, u64::MAX as int);
        lemma_div_is_ordered(
            slope_scaled as int * tokens_sold as int,
            u64::MAX as int * u64::MAX as int,
            1_000_000_000,
        );
    }
    let slope_component: u128 = (slope_scaled as u128) * (tokens_sold as u128) / 1_000_000_000u128;
    let price: u128 = (base_price as u128) + slope_component;
    if price > u64::MAX as u128 {
        u64::MAX
    } else {
        price as u64
    }
}
// ─────────────────────────────────────────────────────────────────────────
// Tokens obtainable for a given amount of funds (inverse of the cost).
// ─────────────────────────────────────────────────────────────────────────

/// `t` is the most tokens `funds` can buy: the cost of `t` is covered,
/// the cost of one more is not.
pub open spec fn is_tokens_for_funds(base: int, slope: int, sold: int, funds: int, t: int) -> bool {
    &&& 0 <= t
    &&& curve_cost_int(base, slope, sold, t) <= funds
    &&& funds < curve_cost_int(base, slope, sold, t + 1)
}

/// The greatest token amount whose cost `funds` covers (meaningful for a
/// positive base price; see `lemma_tokens_for_funds_exists`).  The
/// inverse is a floor: it never allocates more than the funds pay for,
/// and converting a cost back returns the bought amount exactly.
pub open spec fn tokens_for_funds_int(base: int, slope: int, sold: int, funds: int) -> int {
    choose|t: int| is_tokens_for_funds(base, slope, sold, funds, t)
}

/// The inputs on which the inverse succeeds: a positive base price, which
/// makes the cost strictly increasing and the greatest affordable amount
/// well defined.
pub open spec fn tokens_for_funds_ok(base: int, slope: int, sold: int, funds: int) -> bool {
    base > 0
}

/// The cost is monotone in the amount bought.
pub proof fn lemma_curve_cost_monotone(base: int, slope: int, sold: int, a1: int, a2: int)
    requires
        0 <= base,
        0 <= slope,
        0 <= sold,
        0 <= a1 <= a2,
    ensures
        curve_cost_int(base, slope, sold, a1) <= curve_cost_int(base, slope, sold, a2),
{
    assert(base * a1 <= base * a2) by (nonlinear_arith)
        requires
            0 <= base,
            a1 <= a2;
    assert(cost_slope_part(slope, sold, a1) <= cost_slope_part(slope, sold, a2))
        by (nonlinear_arith)
        requires
            0 <= slope,
            0 <= sold,
            0 <= a1 <= a2;
    lemma_div_is_ordered(
        cost_slope_part(slope, sold, a1),
        cost_slope_part(slope, sold, a2),
        2_000_000_000,
    );
}

/// With a positive base price the cost of one more token rises by at
/// least the base price.
proof fn lemma_curve_cost_step(base: int, slope: int, sold: int, a: int)
    requires
        0 <= base,
        0 <= slope,
        0 <= sold,
        0 <= a,
    ensures
        curve_cost_int(base, slope, sold, a + 1) >= curve_cost_int(base, slope, sold, a) + base,
{
    assert(base * (a + 1) == base * a + base) by (nonlinear_arith);
    assert(cost_slope_part(slope, sold, a) <= cost_slope_part(slope, sold, a + 1))
        by (nonlinear_arith)
        requires
            0 <= slope,
            0 <= sold,
            0 <= a;
    lemma_div_is_ordered(
        cost_slope_part(slope, sold, a),
        cost_slope_part(slope, sold, a + 1),
        2_000_000_000,
    );
}

/// For a positive base price a greatest affordable amount exists, so
/// `tokens_for_funds_int` denotes it.
pub proof fn lemma_tokens_for_funds_exists(base: int, slope: int, sold: int, funds: int)
    requires
        0 < base,
        0 <= slope,
        0 <= sold,
        0 <= funds,
    ensures
        is_tokens_for_funds(base, slope, sold, funds, tokens_for_funds_int(base, slope, sold, funds)),
    decreases funds,
{
    if funds == 0 {
        assert(cost_slope_part(slope, sold, 0) == 0) by (nonlinear_arith);
        lemma_curve_cost_step(base, slope, sold, 0);
        assert(is_tokens_for_funds(base, slope, sold, 0, 0));
    } else {
        lemma_tokens_for_funds_exists(base, slope, sold, funds - 1);
        let t = tokens_for_funds_int(base, slope, sold, funds - 1);
        if funds < curve_cost_int(base, slope, sold, t + 1) {
            assert(is_tokens_for_funds(base, slope, sold, funds, t));
        } else {
            lemma_curve_cost_step(base, slope, sold, t + 1);
            assert(is_tokens_for_funds(base, slope, sold, funds, t + 1));
        }
    }
}

/// The greatest affordable amount is unique: any witness equals
/// `tokens_for_funds_int`.
pub proof fn lemma_tokens_for_funds_unique(base: int, slope: int, sold: int, funds: int, t: int)
    requires
        0 < base,
        0 <= slope,
        0 <= sold,
        0 <= funds,
        is_tokens_for_funds(base, slope, sold, funds, t),
    ensures
        t == tokens_for_funds_int(base, slope, sold, funds),
{
    lemma_tokens_for_funds_exists(base, slope, sold, funds);
    let u = tokens_for_funds_int(base, slope, sold, funds);
    if t < u {
        lemma_curve_cost_monotone(base, slope, sold, t + 1, u);
        assert(false);
    }
    if u < t {
        lemma_curve_cost_monotone(base, slope, sold, u + 1, t);
        assert(false);
    }
}

/// How many tokens `sol_amount` funds buy on the bonding curve: the
/// greatest amount whose exact curve cost the funds cover, found by
/// binary search over the verified cost.  `None` exactly when the base
/// price is zero (no price to divide by); `Some(0)`, not an error, when
/// the funds cannot buy one unit.
pub fn bonding_curve_tokens_for_sol(
    base_price: u64,
    slope_scaled: u64,
    tokens_sold: u64,
    sol_amount: u64,
) -> (r: Option<u64>)
    ensures
        r is Some <==> tokens_for_funds_ok(
            base_price as int,
            slope_scaled as int,
            tokens_sold as int,
            sol_amount as int,
        ),
        r matches Some(t) ==> t == tokens_for_funds_int(
            base_price as int,
            slope_scaled as int,
            tokens_sold as int,
            sol_amount as int,
        ) && is_tokens_for_funds(
            base_price as int,
            slope_scaled as int,
            tokens_sold as int,
            sol_amount as int,
            t as int,
        ),
{
    if base_price == 0 {
        return None;
    }
    let ghost gbase = base_price as int;
    let ghost gslope = slope_scaled as int;
    let ghost gsold = tokens_sold as int;
    let ghost gfunds = sol_amount as int;
    let mut lo: u64 = 0;
    let mut hi: u128 = (sol_amount / base_price) as u128 + 1;
    proof {
        // cost(0) == 0 <= funds, and cost(funds / base + 1) > funds since
        // already its flat part exceeds the funds.
        assert(cost_slope_part(gslope, gsold, 0) == 0) by (nonlinear_arith);
        assert(curve_cost_int(gbase, gslope, gsold, 0) == 0);
        lemma_curve_cost_lower(gbase, gslope, gsold, hi as int);
        lemma_fundamental_div_mod(gfunds, gbase);
        lemma_mod_division_less_than_divisor(gfunds, gbase);
        assert(gbase * (hi as int) > gfunds) by (nonlinear_arith)
            requires
                hi as int == gfunds / gbase + 1,
                gfunds == gbase * (gfunds / gbase) + gfunds % gbase,
                gfunds % gbase < gbase,
                0 < gbase;
    }
    while hi - (lo as u128) > 1
        invariant
            0 < base_price,
            lo < hi,
            hi <= u64::MAX as u128 + 1,
            gbase == base_price as int,
            gslope == slope_scaled as int,
            gsold == tokens_sold as int,
            gfunds == sol_amount as int,
            curve_cost_int(gbase, gslope, gsold, lo as int) <= gfunds,
            gfunds < curve_cost_int(gbase, gslope, gsold, hi as int),
        decreases hi - lo,
    {
        let mid: u64 = ((lo as u128) + (hi - (lo as u128)) / 2) as u64;
        proof {
            assert((lo as u128) + (hi - (lo as u128)) / 2 < hi);
            assert(lo < ((lo as u128) + (hi - (lo as u128)) / 2));
        }
        match bonding_curve_cost(base_price, slope_scaled, tokens_sold, mid) {
            Some(c) => {
                if c <= sol_amount {
                    lo = mid;
                } else {
                    hi = mid as u128;
                }
            },
            None => {
                proof {
                    // The cost computation failed only because the true
                    // cost is beyond u64::MAX, hence beyond the funds.
                    if cost_slope_part(gslope, gsold, mid as int) > u128::MAX {
                        lemma_div_is_ordered(
                            u128::MAX as int + 1,
                            cost_slope_part(gslope, gsold, mid as int),
                            2_000_000_000,
                        );
                        assert(gbase * (mid as int) >= 0) by (nonlinear_arith)
                            requires
                                0 <= gbase,
                                0 <= mid as int;
                    }
                }
                hi = mid as u128;
            },
        }
    }
    proof {
        assert(hi == lo as u128 + 1);
        lemma_tokens_for_funds_unique(gbase, gslope, gsold, gfunds, lo as int);
    }
    Some(lo)
}

/// The inverse never returns a negative token count.
pub proof fn lemma_tokens_for_funds_nonneg(base: int, slope: int, sold: int, funds: int)
    requires
        0 < base,
        0 <= slope,
        0 <= sold,
        0 <= funds,
    ensures
        0 <= tokens_for_funds_int(base, slope, sold, funds),
{
    lemma_tokens_for_funds_exists(base, slope, sold, funds);
}

/// The cost of a buy is at least the flat part `base * amount`.
pub proof fn lemma_curve_cost_lower(base: int, slope: int, sold: int, amount: int)
    requires
        0 <= base,
        0 <= slope,
        0 <= sold,
        0 <= amount,
    ensures
        curve_cost_int(base, slope, sold, amount) >= base * amount,
{
    assert(cost_slope_part(slope, sold, amount) >= 0) by (nonlinear_arith)
        requires
            0 <= slope,
            0 <= sold,
            0 <= amount;
    lemma_div_pos_is_pos(cost_slope_part(slope, sold, amount), 2_000_000_000);
}

// ─────────────────────────────────────────────────────────────────────────
// Laws relating cost and its inverse.
// ─────────────────────────────────────────────────────────────────────────

/// The inverse is a floor: the cost of what it returns never exceeds the
/// funds paid, so the inverse never allocates more than paid for.
pub proof fn lemma_tokens_for_funds_covered(base: int, slope: int, sold: int, funds: int)
    requires
        0 < base,
        0 <= slope,
        0 <= sold,
        0 <= funds,
    ensures
        curve_cost_int(base, slope, sold, tokens_for_funds_int(base, slope, sold, funds)) <= funds,
{
    lemma_tokens_for_funds_exists(base, slope, sold, funds);
}

/// The inverse exactly undoes the cost: spending
/// `cost(base, slope, sold, amount)` buys back exactly `amount` tokens,
/// on flat and sloped curves alike.
pub proof fn lemma_curve_round_trip(base: int, slope: int, sold: int, amount: int)
    requires
        0 < base,
        0 <= slope,
        0 <= sold,
        0 <= amount,
    ensures
        tokens_for_funds_int(
            base,
            slope,
            sold,
            curve_cost_int(base, slope, sold, amount),
        ) == amount,
{
    let c = curve_cost_int(base, slope, sold, amount);
    lemma_curve_cost_step(base, slope, sold, amount);
    assert(cost_slope_part(slope, sold, 0) == 0) by (nonlinear_arith);
    lemma_curve_cost_monotone(base, slope, sold, 0, amount);
    lemma_tokens_for_funds_unique(base, slope, sold, c, amount);
}

/// More funds never buy fewer tokens: `tokens_for_funds` is non-decreasing
/// in the funds offered, for a fixed curve position.
pub proof fn lemma_tokens_for_funds_monotone(base: int, slope: int, sold: int, f1: int, f2: int)
    requires
        0 < base,
        0 <= slope,
        0 <= sold,
        0 <= f1 <= f2,
    ensures
        tokens_for_funds_int(base, slope, sold, f1) <= tokens_for_funds_int(base, slope, sold, f2),
{
    lemma_tokens_for_funds_exists(base, slope, sold, f1);
    lemma_tokens_for_funds_exists(base, slope, sold, f2);
    let t1 = tokens_for_funds_int(base, slope, sold, f1);
    let t2 = tokens_for_funds_int(base, slope, sold, f2);
    if t2 < t1 {
        lemma_curve_cost_monotone(base, slope, sold, t2 + 1, t1);
        assert(false);
    }
}

/// A higher curve position never yields more tokens for the same funds:
/// `tokens_for_funds` is non-increasing in the cumulative amount sold.
pub proof fn lemma_tokens_for_funds_antitone_in_sold(
    base: int,
    slope: int,
    sold1: int,
    sold2: int,
    funds: int,
)
    requires
        0 < base,
        0 <= slope,
        0 <= sold1 <= sold2,
        0 <= funds,
    ensures
        tokens_for_funds_int(base, slope, sold2, funds) <= tokens_for_funds_int(
            base,
            slope,
            sold1,
            funds,
        ),
{
    lemma_tokens_for_funds_exists(base, slope, sold1, funds);
    lemma_tokens_for_funds_exists(base, slope, sold2, funds);
    let t1 = tokens_for_funds_int(base, slope, sold1, funds);
    let t2 = tokens_for_funds_int(base, slope, sold2, funds);
    if t1 < t2 {
        // The cost at the higher position dominates the cost at the
        // lower one, so what is affordable there is affordable here.
        assert(cost_slope_part(slope, sold1, t2) <= cost_slope_part(slope, sold2, t2))
            by (nonlinear_arith)
            requires
                0 <= slope,
                0 <= sold1 <= sold2,
                0 <= t2;
        lemma_div_is_ordered(
            cost_slope_part(slope, sold1, t2),
            cost_slope_part(slope, sold2, t2),
            2_000_000_000,
        );
        lemma_curve_cost_monotone(base, slope, sold1, t1 + 1, t2);
        assert(false);
    }
}

} // verus!
