//! Tests for bonding-curve trading: the phase machine, curve buys and
//! sells, the price floor, the supply cap, and graduation.

use sames::engine::Launch;
use sames::errors::SamesError;
use sames::ops;
use sames::state::BuyerRecord;
use sames::state::LaunchStatus;

/// A launch carried through presale into the bonding-curve phase.
/// Buyers 7 and 8 deposit 1 and 9_999 at price 1000; only buyer 7 is
/// finalized (finalization is per-participant), receiving
/// `1 * 1e9 / 10_000 = 100_000` of the 1e9 supply, which leaves
/// 999_900_000 tokens of curve capacity.
fn live_launch() -> Launch {
    let mut launch =
        Launch::create(1, 42, b"TOKEN".to_vec(), b"TOK".to_vec(), 1_000_000_000, 1000, 10, 100)
            .unwrap();
    launch.buy_presale(7, 105, 1).unwrap();
    launch.buy_presale(8, 106, 9_999).unwrap();
    launch.finalize(1, 7, 110).unwrap();
    launch.start_bonding_curve(1, 111).unwrap();
    launch
}

#[test]
fn start_bonding_curve_rules() {
    let mut launch =
        Launch::create(1, 42, b"TOKEN".to_vec(), b"TOK".to_vec(), 1000, 1000, 10, 100).unwrap();
    assert_eq!(launch.start_bonding_curve(2, 110).unwrap_err(), SamesError::UnauthorizedCreator);
    assert_eq!(launch.start_bonding_curve(1, 105).unwrap_err(), SamesError::PresaleStillActive);
    launch.start_bonding_curve(1, 110).unwrap();
    assert_eq!(launch.pool.status, LaunchStatus::BondingCurve);
    assert_eq!(launch.start_bonding_curve(1, 112).unwrap_err(), SamesError::AlreadyFinalized);
}

#[test]
fn curve_buy_requires_curve_phase() {
    let mut launch =
        Launch::create(1, 42, b"TOKEN".to_vec(), b"TOK".to_vec(), 1000, 1000, 10, 100).unwrap();
    assert_eq!(launch.buy_curve(7, 10_000).unwrap_err(), SamesError::NotBondingCurve);
}

#[test]
fn curve_buy_zero_amount_rejected() {
    let mut launch = live_launch();
    assert_eq!(launch.buy_curve(9, 0).unwrap_err(), SamesError::ZeroDeposit);
}

#[test]
fn curve_buy_below_one_token_rejected() {
    // Funds under the price of a single token buy nothing, which is
    // rejected rather than silently charged.
    let mut launch = live_launch();
    assert_eq!(launch.buy_curve(9, 999).unwrap_err(), SamesError::ZeroDeposit);
}

#[test]
fn curve_buy_small_amount_exact() {
    // A small buy lands exactly on the flat part of the curve.
    let mut launch = live_launch();
    let out = launch.buy_curve(9, 10_000).unwrap();
    assert_eq!(out.tokens, 10);
    assert_eq!(out.cost, 10_000);
}

#[test]
fn curve_buy_mints_and_charges_exact_cost() {
    let mut launch = live_launch();
    let out = launch.buy_curve(9, 100_000_000_000).unwrap();
    assert_eq!(out.tokens, 99_504_938);
    assert_eq!(out.cost, 99_999_999_634);
    assert!(out.cost <= 100_000_000_000);
    assert_eq!(launch.pool.tokens_sold_curve, 99_504_938);
    assert_eq!(launch.pool.curve_sol_collected, 99_999_999_634);
    assert_eq!(launch.pool.tokens_minted, 100_000 + 99_504_938);
    assert_eq!(launch.pool.buyer_count, 3);
    // The new buyer's record: all curve, weighted entry price.
    let rec = launch.entries[2];
    assert_eq!(rec.buyer, 9);
    assert_eq!(rec.curve_tokens_bought, 99_504_938);
    assert_eq!(rec.curve_sol_spent, 99_999_999_634);
    assert_eq!(rec.entry_price, 99_999_999_634 / 99_504_938);
    assert_eq!(rec.entry_price, 1004);
}

#[test]
fn curve_buy_respects_supply_cap() {
    // 999_900_000 tokens of capacity remain.  A buy whose funds could
    // take more than that is rejected whole, with nothing mutated.
    let mut launch = live_launch();
    let minted_before = launch.pool.tokens_minted;
    assert_eq!(
        launch.buy_curve(9, 2_000_000_000_000).unwrap_err(),
        SamesError::InsufficientBalance
    );
    assert_eq!(launch.pool.tokens_minted, minted_before);
    assert_eq!(launch.pool.tokens_sold_curve, 0);
    assert_eq!(launch.pool.buyer_count, 2);
    // Offering exactly the cost of the remaining capacity consumes all
    // of it; afterwards the supply is exhausted and nothing more mints.
    let out = launch.buy_curve(9, 1_049_890_000_500).unwrap();
    assert_eq!(out.tokens, 999_900_000);
    assert_eq!(out.cost, 1_049_890_000_500);
    assert_eq!(launch.pool.tokens_minted, launch.pool.total_supply);
    assert_eq!(launch.buy_curve(10, 10_000).unwrap_err(), SamesError::InsufficientBalance);
}

#[test]
fn curve_buy_updates_weighted_entry_price() {
    // On a flat curve the arithmetic is exact: a presale position of 500
    // funds for 1 token, plus 3 tokens bought for 3000, averages to 875.
    let (mut pool, _registry) =
        ops::create_launch(1, 42, b"TOKEN".to_vec(), b"TOK".to_vec(), 1000, 1000, 10, 100)
            .unwrap();
    pool.status = LaunchStatus::BondingCurve;
    pool.slope_scaled = 0;
    pool.tokens_minted = 1;
    let mut record = BuyerRecord {
        launch_pool: 42,
        buyer: 7,
        sol_deposited: 500,
        entry_price: 500,
        tokens_allocated: 1,
        tokens_sold: 0,
        curve_sol_spent: 0,
        curve_tokens_bought: 0,
        finalized: true,
    };
    let out = ops::buy_curve(&mut pool, &mut record, 7, 3000).unwrap();
    assert_eq!(out.tokens, 3);
    assert_eq!(out.cost, 3000);
    assert_eq!(record.curve_tokens_bought, 3);
    assert_eq!(record.curve_sol_spent, 3000);
    assert_eq!(record.entry_price, 875);
    assert_eq!(pool.tokens_minted, 4);
}

#[test]
fn two_phase_position_weighted_entry() {
    // Buyer 7 holds a presale position (1 funds unit for 100_000 tokens)
    // and then buys on the curve; the entry price becomes the
    // funds-weighted average across both phases.
    let mut launch = live_launch();
    assert_eq!(launch.entries[0].entry_price, 1000);
    launch.buy_curve(7, 100_000_000_000).unwrap();
    let rec = launch.entries[0];
    assert_eq!(rec.sol_deposited, 1);
    assert_eq!(rec.tokens_allocated, 100_000);
    assert_eq!(rec.curve_sol_spent, 99_999_999_634);
    assert_eq!(rec.curve_tokens_bought, 99_504_938);
    assert_eq!(rec.entry_price, (1u64 + 99_999_999_634) / (100_000 + 99_504_938));
    assert_eq!(rec.entry_price, 1003);
    assert_eq!(launch.pool.buyer_count, 2);
}

#[test]
fn sell_curve_zero_amount_rejected() {
    let mut launch = live_launch();
    assert_eq!(launch.sell_curve(7, 0).unwrap_err(), SamesError::ZeroSellAmount);
}

#[test]
fn sell_curve_requires_curve_phase() {
    let mut launch =
        Launch::create(1, 42, b"TOKEN".to_vec(), b"TOK".to_vec(), 1000, 1000, 10, 100).unwrap();
    launch.buy_presale(7, 105, 10_000).unwrap();
    assert_eq!(launch.sell_curve(7, 1).unwrap_err(), SamesError::NotBondingCurve);
}

#[test]
fn sell_curve_requires_record() {
    let mut launch = live_launch();
    assert_eq!(launch.sell_curve(99, 1).unwrap_err(), SamesError::NoBuyerRecord);
}

#[test]
fn sell_curve_insufficient_balance() {
    let mut launch = live_launch();
    // Buyer 7 holds 100_000 presale tokens.
    assert_eq!(launch.entries[0].tokens_allocated, 100_000);
    assert_eq!(launch.sell_curve(7, 100_001).unwrap_err(), SamesError::InsufficientBalance);
}

#[test]
fn sell_below_entry_always_rejected() {
    // The price floor: with the spot price under the entry price the sell
    // is rejected for every otherwise-valid amount.
    let mut launch = live_launch();
    launch.update_price(1, 500).unwrap();
    for amount in [1u64, 2, 500, 100_000] {
        assert_eq!(launch.sell_curve(7, amount).unwrap_err(), SamesError::SellBelowEntry);
    }
    // Restoring the price lifts the floor.
    launch.update_price(1, 1000).unwrap();
    assert!(launch.sell_curve(7, 1).is_ok());
}

#[test]
fn sell_curve_refund_and_fee() {
    let mut launch = live_launch();
    launch.buy_curve(9, 100_000_000_000).unwrap();
    // Selling one token refunds the cost of re-buying it, less the 1% fee.
    let out = launch.sell_curve(9, 1).unwrap();
    assert_eq!(out.fee, 10);
    assert_eq!(out.sol_return, 999);
    assert_eq!(launch.pool.tokens_sold_curve, 99_504_938 - 1);
    assert_eq!(launch.pool.curve_sol_collected, 99_999_999_634 - 1009);
    assert_eq!(launch.entries[2].tokens_sold, 1);
}

#[test]
fn graduation_threshold_is_inclusive() {
    // Exactly at the threshold the launch should graduate; one unit below
    // it should not.
    let mut pool =
        ops::create_launch(1, 42, b"TOKEN".to_vec(), b"TOK".to_vec(), 1000, 1000, 10, 100)
            .unwrap()
            .0;
    pool.status = LaunchStatus::BondingCurve;
    pool.graduation_threshold = 69_000_000_000;
    pool.curve_sol_collected = 69_000_000_000;
    assert!(pool.should_graduate());
    pool.curve_sol_collected = 69_000_000_000 - 1;
    assert!(!pool.should_graduate());
}

#[test]
fn graduate_rules() {
    let mut launch = live_launch();
    assert_eq!(launch.graduate().unwrap_err(), SamesError::NotReadyToGraduate);
    // The default threshold is 69e9; one large buy crosses it.
    launch.buy_curve(9, 100_000_000_000).unwrap();
    launch.graduate().unwrap();
    assert_eq!(launch.pool.status, LaunchStatus::Graduated);
    // Graduation is one-way and terminal.
    assert_eq!(launch.graduate().unwrap_err(), SamesError::NotBondingCurve);
    // After graduation curve trading is closed.
    assert_eq!(launch.sell_curve(9, 1).unwrap_err(), SamesError::NotBondingCurve);
}

#[test]
fn presale_phase_should_not_graduate() {
    let launch =
        Launch::create(1, 42, b"TOKEN".to_vec(), b"TOK".to_vec(), 1000, 1000, 10, 100).unwrap();
    assert!(!launch.pool.should_graduate());
}

#[test]
fn market_cap_is_price_times_supply() {
    let pool =
        ops::create_launch(1, 42, b"TOKEN".to_vec(), b"TOK".to_vec(), 500, 1000, 10, 100)
            .unwrap()
            .0;
    assert_eq!(pool.market_cap(), 500_000u128);
}

#[test]
fn average_entry_price_derivation() {
    let mut record = BuyerRecord::new(42, 7);
    assert_eq!(record.average_entry_price(), 0);
    record.sol_deposited = 100;
    record.curve_sol_spent = 50;
    record.tokens_allocated = 10;
    record.curve_tokens_bought = 5;
    assert_eq!(record.average_entry_price(), 10);
}
