//! Tests for the market registry and the transfer-boundary price floor.

use sames::engine::Launch;
use sames::errors::SamesError;
use sames::hook::decode_buyer_record;
use sames::hook::encode_buyer_record;
use sames::hook::handler;
use sames::ops::register_market;
use sames::state::BuyerRecord;
use sames::state::LaunchPool;
use sames::state::LaunchStatus;
use sames::state::MarketRegistry;

fn test_pool(status: LaunchStatus, price: u64, slope: u64, sold: u64) -> LaunchPool {
    LaunchPool {
        creator: 1,
        mint: 42,
        token_name: b"TOKEN".to_vec(),
        token_symbol: b"TOK".to_vec(),
        total_supply: 1_000_000,
        tokens_minted: 0,
        price_lamports: price,
        slope_scaled: slope,
        tokens_sold_curve: sold,
        curve_sol_collected: 0,
        start_time: 100,
        end_time: 110,
        total_sol_collected: 0,
        buyer_count: 0,
        graduation_threshold: 69_000_000_000,
        status,
    }
}

fn test_registry(markets: Vec<u64>) -> MarketRegistry {
    MarketRegistry { launch_pool: 42, authority: 1, market_accounts: markets }
}

fn test_record(entry_price: u64) -> BuyerRecord {
    BuyerRecord {
        launch_pool: 42,
        buyer: 7,
        sol_deposited: 5000,
        entry_price,
        tokens_allocated: 5,
        tokens_sold: 0,
        curve_sol_spent: 0,
        curve_tokens_bought: 0,
        finalized: true,
    }
}

#[test]
fn record_encoding_round_trips() {
    let rec = BuyerRecord {
        launch_pool: 0x1122_3344_5566_7788,
        buyer: u64::MAX,
        sol_deposited: 1,
        entry_price: 0,
        tokens_allocated: 0xDEAD_BEEF,
        tokens_sold: 77,
        curve_sol_spent: 0,
        curve_tokens_bought: 42,
        finalized: true,
    };
    let bytes = encode_buyer_record(&rec);
    assert_eq!(bytes.len(), 65);
    let back = decode_buyer_record(&bytes).unwrap();
    assert_eq!(back.launch_pool, rec.launch_pool);
    assert_eq!(back.buyer, rec.buyer);
    assert_eq!(back.sol_deposited, rec.sol_deposited);
    assert_eq!(back.entry_price, rec.entry_price);
    assert_eq!(back.tokens_allocated, rec.tokens_allocated);
    assert_eq!(back.tokens_sold, rec.tokens_sold);
    assert_eq!(back.curve_sol_spent, rec.curve_sol_spent);
    assert_eq!(back.curve_tokens_bought, rec.curve_tokens_bought);
    assert_eq!(back.finalized, rec.finalized);
}

#[test]
fn record_encoding_layout() {
    // Fixed-width little-endian fields at fixed offsets.
    let mut rec = BuyerRecord::new(42, 7);
    rec.entry_price = 0x0102_0304_0506_0708;
    let bytes = encode_buyer_record(&rec);
    assert_eq!(&bytes[24..32], &[0x08, 0x07, 0x06, 0x05, 0x04, 0x03, 0x02, 0x01]);
    assert_eq!(bytes[64], 0);
}

#[test]
fn decode_rejects_malformed() {
    assert!(decode_buyer_record(&vec![]).is_none());
    assert!(decode_buyer_record(&vec![0u8; 64]).is_none());
    assert!(decode_buyer_record(&vec![0u8; 66]).is_none());
    let mut bad_flag = vec![0u8; 65];
    bad_flag[64] = 2;
    assert!(decode_buyer_record(&bad_flag).is_none());
}

#[test]
fn hook_blocks_market_sell_below_entry() {
    // Spot price 1000 under an entry price of 2000: rejected.
    let pool = test_pool(LaunchStatus::BondingCurve, 1000, 0, 0);
    let registry = test_registry(vec![500]);
    let data = encode_buyer_record(&test_record(2000));
    assert_eq!(handler(&pool, &registry, &data, 500, 3).unwrap_err(), SamesError::HookSellBelowEntry);
}

#[test]
fn hook_allows_market_sell_at_or_above_entry() {
    let pool = test_pool(LaunchStatus::BondingCurve, 1000, 0, 0);
    let registry = test_registry(vec![500]);
    let data = encode_buyer_record(&test_record(1000));
    assert!(handler(&pool, &registry, &data, 500, 3).is_ok());
    let data = encode_buyer_record(&test_record(999));
    assert!(handler(&pool, &registry, &data, 500, 3).is_ok());
}

#[test]
fn hook_uses_spot_price_with_slope() {
    // base 1000, slope 100, 1e10 sold: spot 2000 covers an entry of 1500.
    let pool = test_pool(LaunchStatus::BondingCurve, 1000, 100, 10_000_000_000);
    let registry = test_registry(vec![500]);
    let data = encode_buyer_record(&test_record(1500));
    assert!(handler(&pool, &registry, &data, 500, 3).is_ok());
    let data = encode_buyer_record(&test_record(2001));
    assert_eq!(handler(&pool, &registry, &data, 500, 3).unwrap_err(), SamesError::HookSellBelowEntry);
}

#[test]
fn hook_allows_wallet_to_wallet() {
    // The destination is not a registered market: no floor applies.
    let pool = test_pool(LaunchStatus::BondingCurve, 1000, 0, 0);
    let registry = test_registry(vec![500]);
    let data = encode_buyer_record(&test_record(2000));
    assert!(handler(&pool, &registry, &data, 501, 3).is_ok());
}

#[test]
fn hook_allows_outside_curve_phase() {
    let registry = test_registry(vec![500]);
    let data = encode_buyer_record(&test_record(2000));
    for status in [LaunchStatus::Presale, LaunchStatus::Graduated, LaunchStatus::Closed] {
        let pool = test_pool(status, 1000, 0, 0);
        assert!(handler(&pool, &registry, &data, 500, 3).is_ok());
    }
}

#[test]
fn hook_fails_open_on_malformed_record() {
    // Missing or unreadable ledger data allows the transfer: the floor
    // must not brick transfers for holders without a (readable) record.
    let pool = test_pool(LaunchStatus::BondingCurve, 1000, 0, 0);
    let registry = test_registry(vec![500]);
    assert!(handler(&pool, &registry, &vec![], 500, 3).is_ok());
    assert!(handler(&pool, &registry, &vec![1, 2, 3], 500, 3).is_ok());
    let mut bad_flag = encode_buyer_record(&test_record(2000));
    bad_flag[64] = 9;
    assert!(handler(&pool, &registry, &bad_flag, 500, 3).is_ok());
}

#[test]
fn registry_membership() {
    let registry = test_registry(vec![500, 501]);
    assert!(registry.is_market(500));
    assert!(registry.is_market(501));
    assert!(!registry.is_market(502));
    let empty = test_registry(vec![]);
    assert!(!empty.is_market(500));
}

#[test]
fn register_market_authority_and_capacity() {
    let mut registry = test_registry(vec![]);
    assert_eq!(register_market(&mut registry, 2, 500).unwrap_err(), SamesError::UnauthorizedCreator);
    for m in 0..16u64 {
        register_market(&mut registry, 1, 500 + m).unwrap();
    }
    assert_eq!(registry.market_accounts.len(), 16);
    assert_eq!(register_market(&mut registry, 1, 999).unwrap_err(), SamesError::InvalidMarket);
    assert_eq!(registry.market_accounts.len(), 16);
}

#[test]
fn engine_register_market() {
    let mut launch =
        Launch::create(1, 42, b"TOKEN".to_vec(), b"TOK".to_vec(), 1000, 1000, 10, 100).unwrap();
    launch.register_market(1, 500).unwrap();
    assert!(launch.registry.is_market(500));
    assert_eq!(launch.register_market(3, 501).unwrap_err(), SamesError::UnauthorizedCreator);
}
