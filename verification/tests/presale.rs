//! Tests for launch creation, the presale window, and finalization.

use sames::engine::Launch;
use sames::errors::SamesError;
use sames::ops;
use sames::state::BuyerRecord;
use sames::state::LaunchStatus;

fn new_launch(supply: u64, price: u64) -> Launch {
    // Window [100, 110).
    Launch::create(1, 42, b"TOKEN".to_vec(), b"TOK".to_vec(), supply, price, 10, 100).unwrap()
}

#[test]
fn create_validates_inputs() {
    let name = b"TOKEN".to_vec();
    let sym = b"TOK".to_vec();
    let long_name = vec![b'x'; 33];
    let long_sym = vec![b'y'; 11];
    assert_eq!(
        Launch::create(1, 42, long_name, sym.clone(), 10, 10, 10, 0).unwrap_err(),
        SamesError::NameTooLong
    );
    assert_eq!(
        Launch::create(1, 42, name.clone(), long_sym, 10, 10, 10, 0).unwrap_err(),
        SamesError::SymbolTooLong
    );
    assert_eq!(
        Launch::create(1, 42, name.clone(), sym.clone(), 0, 10, 10, 0).unwrap_err(),
        SamesError::ZeroSupply
    );
    assert_eq!(
        Launch::create(1, 42, name.clone(), sym.clone(), 10, 0, 10, 0).unwrap_err(),
        SamesError::ZeroPrice
    );
    assert_eq!(
        Launch::create(1, 42, name.clone(), sym.clone(), 10, 10, 9, 0).unwrap_err(),
        SamesError::InvalidPresaleWindow
    );
    assert_eq!(
        Launch::create(1, 42, name.clone(), sym.clone(), 10, 10, 121, 0).unwrap_err(),
        SamesError::InvalidPresaleWindow
    );
    // The bounds themselves are accepted.
    assert!(Launch::create(1, 42, name.clone(), sym.clone(), 10, 10, 10, 0).is_ok());
    assert!(Launch::create(1, 42, name.clone(), sym.clone(), 10, 10, 120, 0).is_ok());
    // A window that runs past the end of representable time overflows.
    assert_eq!(
        Launch::create(1, 42, name, sym, 10, 10, 10, i64::MAX - 5).unwrap_err(),
        SamesError::MathOverflow
    );
}

#[test]
fn create_initial_state() {
    let launch = new_launch(1000, 50);
    assert_eq!(launch.pool.creator, 1);
    assert_eq!(launch.pool.mint, 42);
    assert_eq!(launch.pool.total_supply, 1000);
    assert_eq!(launch.pool.price_lamports, 50);
    assert_eq!(launch.pool.start_time, 100);
    assert_eq!(launch.pool.end_time, 110);
    assert_eq!(launch.pool.total_sol_collected, 0);
    assert_eq!(launch.pool.tokens_minted, 0);
    assert_eq!(launch.pool.buyer_count, 0);
    assert_eq!(launch.pool.status, LaunchStatus::Presale);
    assert!(launch.entries.is_empty());
    assert!(launch.registry.market_accounts.is_empty());
}

#[test]
fn presale_window_enforced() {
    // Before start_time the deposit is not yet accepted; at or after
    // end_time it no longer is.
    let mut launch = new_launch(1000, 50);
    assert_eq!(launch.buy_presale(7, 110, 5).unwrap_err(), SamesError::PresaleEnded);
    let mut launch = new_launch(1000, 50);
    assert_eq!(launch.buy_presale(7, 500, 5).unwrap_err(), SamesError::PresaleEnded);
    // Inside the window the deposit lands.
    let mut launch = new_launch(1000, 50);
    assert!(launch.buy_presale(7, 105, 5).is_ok());
    assert_eq!(launch.pool.total_sol_collected, 5);
    assert_eq!(launch.pool.buyer_count, 1);
}

#[test]
fn presale_window_before_start() {
    // A launch whose window opens later rejects an early joiner.
    let mut launch =
        Launch::create(1, 42, b"TOKEN".to_vec(), b"TOK".to_vec(), 1000, 50, 10, 100).unwrap();
    launch.pool.start_time = 105;
    assert_eq!(launch.buy_presale(7, 102, 5).unwrap_err(), SamesError::PresaleNotStarted);
}

#[test]
fn presale_zero_deposit_rejected() {
    let mut launch = new_launch(1000, 50);
    assert_eq!(launch.buy_presale(7, 105, 0).unwrap_err(), SamesError::ZeroDeposit);
}

#[test]
fn presale_deposit_accumulates() {
    let mut launch = new_launch(1000, 50);
    launch.buy_presale(7, 104, 3).unwrap();
    launch.buy_presale(7, 105, 4).unwrap();
    assert_eq!(launch.pool.total_sol_collected, 7);
    assert_eq!(launch.pool.buyer_count, 1);
    assert_eq!(launch.entries.len(), 1);
    assert_eq!(launch.entries[0].sol_deposited, 7);
    assert_eq!(launch.entries[0].entry_price, 50);
    assert_eq!(launch.entries[0].buyer, 7);
    assert!(!launch.entries[0].finalized);
}

#[test]
fn presale_overflow_aborts_without_mutation() {
    let mut launch = new_launch(1000, 50);
    launch.buy_presale(7, 104, u64::MAX).unwrap();
    assert_eq!(launch.buy_presale(8, 105, 1).unwrap_err(), SamesError::MathOverflow);
    assert_eq!(launch.pool.total_sol_collected, u64::MAX);
    assert_eq!(launch.pool.buyer_count, 1);
    assert_eq!(launch.entries.len(), 1);
}

#[test]
fn proportional_allocation_two_buyers() {
    // Deposits of 3 and 7 against a supply of 1000: 300 and 700 tokens.
    let mut launch = new_launch(1000, 50);
    launch.buy_presale(7, 105, 3).unwrap();
    launch.buy_presale(8, 106, 7).unwrap();
    let a = launch.finalize(1, 7, 110).unwrap();
    let b = launch.finalize(1, 8, 111).unwrap();
    assert_eq!(a, 300);
    assert_eq!(b, 700);
    assert_eq!(launch.entries[0].tokens_allocated, 300);
    assert_eq!(launch.entries[1].tokens_allocated, 700);
    assert!(launch.entries[0].finalized);
    assert!(launch.entries[1].finalized);
    assert_eq!(launch.pool.tokens_minted, 1000);
}

#[test]
fn allocations_stay_within_supply() {
    // The ledger-wide conservation bound, on an uneven split whose floors
    // drop fractions.
    let mut launch = new_launch(1000, 50);
    launch.buy_presale(7, 105, 3).unwrap();
    launch.buy_presale(8, 106, 4).unwrap();
    launch.buy_presale(9, 107, 6).unwrap();
    launch.finalize(1, 7, 110).unwrap();
    launch.finalize(1, 8, 111).unwrap();
    launch.finalize(1, 9, 112).unwrap();
    let handed_out: u64 = launch.tokens_handed_out();
    assert_eq!(handed_out, 230 + 307 + 461);
    assert!(handed_out <= launch.pool.total_supply);
}

#[test]
fn finalize_requires_elapsed_window() {
    let mut launch = new_launch(1000, 50);
    launch.buy_presale(7, 105, 3).unwrap();
    assert_eq!(launch.finalize(1, 7, 108).unwrap_err(), SamesError::PresaleStillActive);
}

#[test]
fn finalize_requires_creator() {
    let mut launch = new_launch(1000, 50);
    launch.buy_presale(7, 105, 3).unwrap();
    assert_eq!(launch.finalize(2, 7, 110).unwrap_err(), SamesError::UnauthorizedCreator);
}

#[test]
fn finalize_twice_rejected() {
    let mut launch = new_launch(1000, 50);
    launch.buy_presale(7, 105, 3).unwrap();
    launch.finalize(1, 7, 110).unwrap();
    assert_eq!(launch.finalize(1, 7, 111).unwrap_err(), SamesError::AlreadyFinalized);
}

#[test]
fn finalize_zero_deposit_rejected() {
    // A record with nothing deposited cannot be finalized.
    let created = ops::create_launch(1, 42, b"TOKEN".to_vec(), b"TOK".to_vec(), 1000, 50, 10, 100);
    let (mut pool, _registry) = created.unwrap();
    let mut record = BuyerRecord::new(42, 7);
    record.curve_sol_spent = 1; // the entry exists, but holds no presale deposit
    assert_eq!(
        ops::finalize_launch(&mut pool, &mut record, 1, 110).unwrap_err(),
        SamesError::ZeroDeposit
    );
}

#[test]
fn finalize_unknown_buyer_rejected() {
    let mut launch = new_launch(1000, 50);
    launch.buy_presale(7, 105, 3).unwrap();
    assert_eq!(launch.finalize(1, 99, 110).unwrap_err(), SamesError::NoBuyerRecord);
}

#[test]
fn deposits_rejected_after_finalization_begins() {
    let mut launch = new_launch(1000, 50);
    launch.buy_presale(7, 105, 3).unwrap();
    launch.finalize(1, 7, 110).unwrap();
    assert_eq!(launch.buy_presale(8, 111, 5).unwrap_err(), SamesError::PresaleEnded);
}

#[test]
fn presale_activity_window() {
    let launch = new_launch(1000, 50);
    assert!(!launch.pool.is_presale_active(99));
    assert!(launch.pool.is_presale_active(100));
    assert!(launch.pool.is_presale_active(109));
    assert!(!launch.pool.is_presale_active(110));
    assert!(!launch.pool.is_presale_over(109));
    assert!(launch.pool.is_presale_over(110));
}

#[test]
fn update_price_rules() {
    let mut launch = new_launch(1000, 50);
    assert_eq!(launch.update_price(2, 60).unwrap_err(), SamesError::UnauthorizedCreator);
    assert_eq!(launch.update_price(1, 0).unwrap_err(), SamesError::ZeroPrice);
    launch.update_price(1, 60).unwrap();
    assert_eq!(launch.pool.price_lamports, 60);
}
