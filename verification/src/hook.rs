//! The price-floor guard at the transfer boundary.
//!
//! The token runtime calls the guard on every transfer of a launched
//! token, handing it the sender's serialised ledger entry (the raw bytes
//! of the stored record) and the transfer's destination.  The policy:
//!
//! 1. If the launch phase is not `BondingCurve`, allow unconditionally.
//! 2. If the destination is not a registered market, allow (wallet-to-
//!    wallet transfers are unrestricted).
//! 3. If the sender has no ledger entry — or the stored bytes are
//!    malformed — allow.  Failing OPEN here is deliberate: a broken record
//!    must not brick transfers for holders who never took part in the
//!    presale or curve.
//! 4. Otherwise allow exactly when the current spot price is at or above
//!    the sender's entry price; below it the transfer is rejected.
//!
//! The record's stored form is fixed-width little-endian: eight 8-byte
//! fields followed by a one-byte finalization flag.

use crate::curve::bonding_curve_price;
use crate::curve::spot_price_int;
use crate::errors::SamesError;
use crate::state::BuyerRecord;
use crate::state::LaunchPool;
use crate::state::LaunchStatus;
use crate::state::MarketRegistry;
use vstd::bytes::lemma_auto_spec_u64_to_from_le_bytes;
use vstd::bytes::spec_u64_from_le_bytes;
use vstd::bytes::spec_u64_to_le_bytes;
use vstd::bytes::u64_from_le_bytes;
use vstd::bytes::u64_to_le_bytes;
use vstd::prelude::*;
use vstd::slice::slice_subrange;

verus! {

/// Byte length of a stored ledger entry: eight 8-byte fields plus the
/// finalization flag.
pub const RECORD_BYTES: usize = 65;

/// The `u64` stored little-endian at byte offset `off`.
pub open spec fn le64_at(data: Seq<u8>, off: int) -> u64 {
    spec_u64_from_le_bytes(data.subrange(off, off + 8))
}

/// What a well-formed stored ledger entry denotes: `None` for data of the
/// wrong length or with a flag byte that is neither 0 nor 1.
pub open spec fn decode_record_spec(data: Seq<u8>) -> Option<BuyerRecord> {
    if data.len() != RECORD_BYTES {
        None
    } else if data[64] != 0 && data[64] != 1 {
        None
    } else {
        Some(
            BuyerRecord {
                launch_pool: le64_at(data, 0),
                buyer: le64_at(data, 8),
                sol_deposited: le64_at(data, 16),
                entry_price: le64_at(data, 24),
                tokens_allocated: le64_at(data, 32),
                tokens_sold: le64_at(data, 40),
                curve_sol_spent: le64_at(data, 48),
                curve_tokens_bought: le64_at(data, 56),
                finalized: data[64] == 1,
            },
        )
    }
}

/// The stored form of a ledger entry.
pub open spec fn encode_record_spec(record: BuyerRecord) -> Seq<u8> {
    spec_u64_to_le_bytes(record.launch_pool) + spec_u64_to_le_bytes(record.buyer)
        + spec_u64_to_le_bytes(record.sol_deposited) + spec_u64_to_le_bytes(record.entry_price)
        + spec_u64_to_le_bytes(record.tokens_allocated) + spec_u64_to_le_bytes(record.tokens_sold)
        + spec_u64_to_le_bytes(record.curve_sol_spent) + spec_u64_to_le_bytes(
        record.curve_tokens_bought,
    ) + seq![if record.finalized { 1u8 } else { 0u8 }]
}

/// Read the `u64` stored little-endian at byte offset `off`.
fn read_u64_le(data: &Vec<u8>, off: usize) -> (x: u64)
    requires
        off + 8 <= data@.len(),
    ensures
        x == le64_at(data@, off as int),
{
    let n: usize = data.len();
    assert(off + 8 <= n);
    let sub: &[u8] = slice_subrange(data.as_slice(), off, off + 8);
    u64_from_le_bytes(sub)
}

/// Parse a stored ledger entry; `None` exactly on malformed data.
pub fn decode_buyer_record(data: &Vec<u8>) -> (r: Option<BuyerRecord>)
    ensures
        r == decode_record_spec(data@),
{
    if data.len() != RECORD_BYTES {
        return None;
    }
    let flag: u8 = data[64];
    if flag != 0 && flag != 1 {
        return None;
    }
    Some(
        BuyerRecord {
            launch_pool: read_u64_le(data, 0),
            buyer: read_u64_le(data, 8),
            sol_deposited: read_u64_le(data, 16),
            entry_price: read_u64_le(data, 24),
            tokens_allocated: read_u64_le(data, 32),
            tokens_sold: read_u64_le(data, 40),
            curve_sol_spent: read_u64_le(data, 48),
            curve_tokens_bought: read_u64_le(data, 56),
            finalized: flag == 1,
        },
    )
}

/// Serialise a ledger entry into its stored form; decoding gives the
/// entry back.
pub fn encode_buyer_record(record: &BuyerRecord) -> (r: Vec<u8>)
    ensures
        r@ == encode_record_spec(*record),
        decode_record_spec(r@) == Some(*record),
{
    let mut out: Vec<u8> = u64_to_le_bytes(record.launch_pool);
    let mut part = u64_to_le_bytes(record.buyer);
    out.append(&mut part);
    let mut part = u64_to_le_bytes(record.sol_deposited);
    out.append(&mut part);
    let mut part = u64_to_le_bytes(record.entry_price);
    out.append(&mut part);
    let mut part = u64_to_le_bytes(record.tokens_allocated);
    out.append(&mut part);
    let mut part = u64_to_le_bytes(record.tokens_sold);
    out.append(&mut part);
    let mut part = u64_to_le_bytes(record.curve_sol_spent);
    out.append(&mut part);
    let mut part = u64_to_le_bytes(record.curve_tokens_bought);
    out.append(&mut part);
    out.push(if record.finalized {
        1u8
    } else {
        0u8
    });
    proof {
        assert(out@ =~= encode_record_spec(*record));
        lemma_record_round_trip(*record, out@);
    }
    out
}

/// Decoding the stored form of a record gives the record back.
proof fn lemma_record_round_trip(record: BuyerRecord, data: Seq<u8>)
    requires
        data == encode_record_spec(record),
    ensures
        decode_record_spec(data) == Some(record),
{
    lemma_auto_spec_u64_to_from_le_bytes();
    assert(data.len() == RECORD_BYTES);
    assert(data.subrange(0, 8) =~= spec_u64_to_le_bytes(record.launch_pool));
    assert(data.subrange(8, 16) =~= spec_u64_to_le_bytes(record.buyer));
    assert(data.subrange(16, 24) =~= spec_u64_to_le_bytes(record.sol_deposited));
    assert(data.subrange(24, 32) =~= spec_u64_to_le_bytes(record.entry_price));
    assert(data.subrange(32, 40) =~= spec_u64_to_le_bytes(record.tokens_allocated));
    assert(data.subrange(40, 48) =~= spec_u64_to_le_bytes(record.tokens_sold));
    assert(data.subrange(48, 56) =~= spec_u64_to_le_bytes(record.curve_sol_spent));
    assert(data.subrange(56, 64) =~= spec_u64_to_le_bytes(record.curve_tokens_bought));
    assert(data[64] == (if record.finalized {
        1u8
    } else {
        0u8
    }));
}

/// The guard's verdict on a proposed transfer: `None` to allow, otherwise
/// the rejection error.  `record` is the sender's decoded ledger entry,
/// `None` when missing or malformed.
pub open spec fn hook_verdict(
    pool: LaunchPool,
    registry: MarketRegistry,
    record: Option<BuyerRecord>,
    destination: u64,
) -> Option<SamesError> {
    if !(pool.status is BondingCurve) {
        None
    } else if !registry.market_accounts@.contains(destination) {
        None
    } else if record is None {
        None
    } else if spot_price_int(
        pool.price_lamports as int,
        pool.slope_scaled as int,
        pool.tokens_sold_curve as int,
    ) < record->Some_0.entry_price {
        Some(SamesError::HookSellBelowEntry)
    } else {
        None
    }
}

/// Evaluate the price floor for one proposed transfer of `amount` tokens.
/// `sender_record_data` is the raw stored form of the sender's ledger
/// entry (possibly empty or malformed, which allows the transfer).
/// Transfers outside the bonding-curve phase, to unregistered
/// destinations, or by senders without a ledger entry pass unchecked.
pub fn handler(
    pool: &LaunchPool,
    registry: &MarketRegistry,
    sender_record_data: &Vec<u8>,
    destination: u64,
    amount: u64,
) -> (r: Result<(), SamesError>)
    ensures
        r is Ok <==> hook_verdict(
            *pool,
            *registry,
            decode_record_spec(sender_record_data@),
            destination,
        ) is None,
        r matches Err(e) ==> Some(e) == hook_verdict(
            *pool,
            *registry,
            decode_record_spec(sender_record_data@),
            destination,
        ),
        // Malformed or missing ledger data fails open: the transfer is
        // allowed rather than blocked.
        decode_record_spec(sender_record_data@) is None ==> r is Ok,
        // The floor itself: a registered-market transfer by a recorded
        // sender is rejected exactly when the spot price is below that
        // sender's entry price.
        (pool.status is BondingCurve && registry.market_accounts@.contains(destination)
            && decode_record_spec(sender_record_data@) is Some) ==> (r == Err::<(), SamesError>(
            SamesError::HookSellBelowEntry,
        ) <==> spot_price_int(
            pool.price_lamports as int,
            pool.slope_scaled as int,
            pool.tokens_sold_curve as int,
        ) < decode_record_spec(sender_record_data@)->Some_0.entry_price),
{
    let _ = amount;
    if pool.status != LaunchStatus::BondingCurve {
        return Ok(());
    }
    if !registry.is_market(destination) {
        return Ok(());
    }
    let record = match decode_buyer_record(sender_record_data) {
        Some(rec) => rec,
        None => {
            return Ok(());
        },
    };
    let current_price: u64 = bonding_curve_price(
        pool.price_lamports,
        pool.slope_scaled,
        pool.tokens_sold_curve,
    );
    if current_price < record.entry_price {
        return Err(SamesError::HookSellBelowEntry);
    }
    Ok(())
}

} // verus!
