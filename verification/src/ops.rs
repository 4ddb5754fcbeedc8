//! The launch operations.
//!
//! Each operation is a total function from the current state and the
//! caller's arguments to either an error (in which case nothing is
//! mutated) or a new state plus what the external custody and issuance
//! collaborators must move (funds to debit, tokens to mint or burn).
//!
//! Every operation's behaviour is pinned by a spec-level transition: an
//! `..._error` function giving exactly which error is returned on which
//! inputs, and `..._after` functions giving the successor state on
//! success.

use crate::curve::bonding_curve_cost;
use crate::curve::bonding_curve_price;
use crate::curve::bonding_curve_tokens_for_sol;
use crate::curve::curve_cost_int;
use crate::curve::curve_cost_ok;
use crate::curve::lemma_mul_le;
use crate::curve::spot_price_int;
use crate::curve::tokens_for_funds_int;
use crate::curve::tokens_for_funds_ok;
use crate::errors::SamesError;
use crate::state::BuyerRecord;
use crate::state::LaunchPool;
use crate::state::LaunchStatus;
use crate::state::MarketRegistry;
use crate::state::MAX_MARKETS;
use crate::state::MAX_NAME_LEN;
use crate::state::MAX_SYMBOL_LEN;
use crate::state::sat_sub_u64;
use vstd::arithmetic::div_mod::lemma_div_is_ordered;
use vstd::arithmetic::div_mod::lemma_div_multiples_vanish;
use vstd::prelude::*;

verus! {

/// Shortest allowed presale window, in time units.
pub const MIN_PRESALE_WINDOW: u32 = 10;

/// Longest allowed presale window, in time units.
pub const MAX_PRESALE_WINDOW: u32 = 120;

/// Default bonding-curve slope (scaled by 1e9) given to new launches.
pub const DEFAULT_SLOPE: u64 = 100;

/// Default curve funding level at which a launch may graduate.
pub const DEFAULT_GRADUATION_THRESHOLD: u64 = 69_000_000_000;

/// Platform fee charged on curve sells, in basis points.
pub const PLATFORM_FEE_BPS: u64 = 100;

/// Basis-point denominator.
pub const FEE_DENOMINATOR: u64 = 10_000;

/// A record that has never taken part in either phase.
pub open spec fn record_is_fresh(record: BuyerRecord) -> bool {
    record.sol_deposited == 0 && record.curve_sol_spent == 0
}

// ─────────────────────────────────────────────────────────────────────────
// create_launch
// ─────────────────────────────────────────────────────────────────────────

/// Which error `create_launch` returns, if any.
pub open spec fn create_launch_error(
    token_name: Seq<u8>,
    token_symbol: Seq<u8>,
    total_supply: u64,
    price_lamports: u64,
    window_seconds: u32,
    now: i64,
) -> Option<SamesError> {
    if token_name.len() > MAX_NAME_LEN {
        Some(SamesError::NameTooLong)
    } else if token_symbol.len() > MAX_SYMBOL_LEN {
        Some(SamesError::SymbolTooLong)
    } else if total_supply == 0 {
        Some(SamesError::ZeroSupply)
    } else if price_lamports == 0 {
        Some(SamesError::ZeroPrice)
    } else if window_seconds < MIN_PRESALE_WINDOW || window_seconds > MAX_PRESALE_WINDOW {
        Some(SamesError::InvalidPresaleWindow)
    } else if now + window_seconds > i64::MAX {
        Some(SamesError::MathOverflow)
    } else {
        None
    }
}

/// Create a launch: validate the inputs and return the initial pool in the
/// `Presale` phase together with its empty market registry.  The presale
/// window runs from `now` to `now + window_seconds`.
pub fn create_launch(
    creator: u64,
    mint: u64,
    token_name: Vec<u8>,
    token_symbol: Vec<u8>,
    total_supply: u64,
    price_lamports: u64,
    window_seconds: u32,
    now: i64,
) -> (r: Result<(LaunchPool, MarketRegistry), SamesError>)
    ensures
        r is Err <==> create_launch_error(
            token_name@,
            token_symbol@,
            total_supply,
            price_lamports,
            window_seconds,
            now,
        ) is Some,
        r matches Err(e) ==> Some(e) == create_launch_error(
            token_name@,
            token_symbol@,
            total_supply,
            price_lamports,
            window_seconds,
            now,
        ),
        r matches Ok(pr) ==> {
            &&& pr.0 == (LaunchPool {
                creator,
                mint,
                token_name,
                token_symbol,
                total_supply,
                tokens_minted: 0,
                price_lamports,
                slope_scaled: DEFAULT_SLOPE,
                tokens_sold_curve: 0,
                curve_sol_collected: 0,
                start_time: now,
                end_time: (now + window_seconds) as i64,
                total_sol_collected: 0,
                buyer_count: 0,
                graduation_threshold: DEFAULT_GRADUATION_THRESHOLD,
                status: LaunchStatus::Presale,
            })
            &&& pr.1.launch_pool == mint
            &&& pr.1.authority == creator
            &&& pr.1.market_accounts@ == Seq::<u64>::empty()
        },
{
    if token_name.len() > MAX_NAME_LEN {
        return Err(SamesError::NameTooLong);
    }
    if token_symbol.len() > MAX_SYMBOL_LEN {
        return Err(SamesError::SymbolTooLong);
    }
    if total_supply == 0 {
        return Err(SamesError::ZeroSupply);
    }
    if price_lamports == 0 {
        return Err(SamesError::ZeroPrice);
    }
    if window_seconds < MIN_PRESALE_WINDOW || window_seconds > MAX_PRESALE_WINDOW {
        return Err(SamesError::InvalidPresaleWindow);
    }
    let end_time: i64 = match now.checked_add(window_seconds as i64) {
        Some(v) => v,
        None => {
            return Err(SamesError::MathOverflow);
        },
    };
    let pool = LaunchPool {
        creator,
        mint,
        token_name,
        token_symbol,
        total_supply,
        tokens_minted: 0,
        price_lamports,
        slope_scaled: DEFAULT_SLOPE,
        tokens_sold_curve: 0,
        curve_sol_collected: 0,
        start_time: now,
        end_time,
        total_sol_collected: 0,
        buyer_count: 0,
        graduation_threshold: DEFAULT_GRADUATION_THRESHOLD,
        status: LaunchStatus::Presale,
    };
    let registry = MarketRegistry { launch_pool: mint, authority: creator, market_accounts: Vec::new() };
    Ok((pool, registry))
}

// ─────────────────────────────────────────────────────────────────────────
// buy_presale
// ─────────────────────────────────────────────────────────────────────────

/// Which error `buy_presale` returns, if any.
pub open spec fn presale_deposit_error(
    pool: LaunchPool,
    record: BuyerRecord,
    now: i64,
    sol_amount: u64,
) -> Option<SamesError> {
    if sol_amount == 0 {
        Some(SamesError::ZeroDeposit)
    } else if now < pool.start_time {
        Some(SamesError::PresaleNotStarted)
    } else if now >= pool.end_time {
        Some(SamesError::PresaleEnded)
    } else if !(pool.status is Presale) {
        Some(SamesError::AlreadyFinalized)
    } else if pool.total_sol_collected + sol_amount > u64::MAX {
        Some(SamesError::MathOverflow)
    } else if record_is_fresh(record) && pool.buyer_count + 1 > u32::MAX {
        Some(SamesError::MathOverflow)
    } else if record.sol_deposited + sol_amount > u64::MAX {
        Some(SamesError::MathOverflow)
    } else {
        None
    }
}

/// The pool after a successful presale deposit.
pub open spec fn presale_pool_after(
    pool: LaunchPool,
    record: BuyerRecord,
    sol_amount: u64,
) -> LaunchPool {
    LaunchPool {
        total_sol_collected: (pool.total_sol_collected + sol_amount) as u64,
        buyer_count: if record_is_fresh(record) {
            (pool.buyer_count + 1) as u32
        } else {
            pool.buyer_count
        },
        ..pool
    }
}

/// The buyer's record after a successful presale deposit: initialised on
/// first contact (entry price pinned to the presale price), then
/// accumulated.
pub open spec fn presale_record_after(
    pool: LaunchPool,
    record: BuyerRecord,
    buyer: u64,
    sol_amount: u64,
) -> BuyerRecord {
    if record_is_fresh(record) {
        BuyerRecord {
            launch_pool: pool.mint,
            buyer,
            sol_deposited: sol_amount,
            entry_price: pool.price_lamports,
            tokens_allocated: 0,
            tokens_sold: 0,
            curve_sol_spent: 0,
            curve_tokens_bought: 0,
            finalized: false,
        }
    } else {
        BuyerRecord { sol_deposited: (record.sol_deposited + sol_amount) as u64, ..record }
    }
}

/// Deposit `sol_amount` funds during the presale window.  Allowed only
/// while the phase is `Presale` and `start_time <= now < end_time`;
/// rejected deposits mutate nothing.
pub fn buy_presale(
    pool: &mut LaunchPool,
    record: &mut BuyerRecord,
    buyer: u64,
    now: i64,
    sol_amount: u64,
) -> (r: Result<(), SamesError>)
    ensures
        r is Err <==> presale_deposit_error(*old(pool), *old(record), now, sol_amount) is Some,
        r matches Err(e) ==> Some(e) == presale_deposit_error(
            *old(pool),
            *old(record),
            now,
            sol_amount,
        ) && *final(pool) == *old(pool) && *final(record) == *old(record),
        r is Ok ==> *final(pool) == presale_pool_after(*old(pool), *old(record), sol_amount),
        r is Ok ==> *final(record) == presale_record_after(*old(pool), *old(record), buyer, sol_amount),
        // A deposit attempted before the window opens, or at/after its
        // close, is rejected with the matching temporal error.
        old(pool).status is Presale && sol_amount > 0 && now < old(pool).start_time ==> r == Err::<
            (),
            SamesError,
        >(SamesError::PresaleNotStarted),
        old(pool).status is Presale && sol_amount > 0 && old(pool).start_time <= now && now >= old(
            pool,
        ).end_time ==> r == Err::<(), SamesError>(SamesError::PresaleEnded),
{
    if sol_amount == 0 {
        return Err(SamesError::ZeroDeposit);
    }
    if now < pool.start_time {
        return Err(SamesError::PresaleNotStarted);
    }
    if now >= pool.end_time {
        return Err(SamesError::PresaleEnded);
    }
    if pool.status != LaunchStatus::Presale {
        return Err(SamesError::AlreadyFinalized);
    }
    let new_total: u64 = match pool.total_sol_collected.checked_add(sol_amount) {
        Some(v) => v,
        None => {
            return Err(SamesError::MathOverflow);
        },
    };
    let fresh = record.sol_deposited == 0 && record.curve_sol_spent == 0;
    let new_buyer_count: u32 = if fresh {
        match pool.buyer_count.checked_add(1) {
            Some(v) => v,
            None => {
                return Err(SamesError::MathOverflow);
            },
        }
    } else {
        pool.buyer_count
    };
    let new_deposit: u64 = match record.sol_deposited.checked_add(sol_amount) {
        Some(v) => v,
        None => {
            return Err(SamesError::MathOverflow);
        },
    };
    if fresh {
        record.launch_pool = pool.mint;
        record.buyer = buyer;
        record.entry_price = pool.price_lamports;
        record.tokens_allocated = 0;
        record.tokens_sold = 0;
        record.curve_sol_spent = 0;
        record.curve_tokens_bought = 0;
        record.finalized = false;
    }
    record.sol_deposited = new_deposit;
    pool.total_sol_collected = new_total;
    pool.buyer_count = new_buyer_count;
    Ok(())
}

// ─────────────────────────────────────────────────────────────────────────
// finalize_launch
// ─────────────────────────────────────────────────────────────────────────

/// The proportional presale allocation:
/// `floor(deposit * total_supply / total_collected)`.
pub open spec fn finalize_tokens(pool: LaunchPool, record: BuyerRecord) -> int {
    record.sol_deposited * pool.total_supply / (pool.total_sol_collected as int)
}

/// Which error `finalize_launch` returns, if any.
pub open spec fn finalize_error(
    pool: LaunchPool,
    record: BuyerRecord,
    caller: u64,
    now: i64,
) -> Option<SamesError> {
    if caller != pool.creator {
        Some(SamesError::UnauthorizedCreator)
    } else if now < pool.end_time {
        Some(SamesError::PresaleStillActive)
    } else if !(pool.status is Presale) {
        Some(SamesError::AlreadyFinalized)
    } else if record.finalized {
        Some(SamesError::AlreadyFinalized)
    } else if record.sol_deposited == 0 {
        Some(SamesError::ZeroDeposit)
    } else if pool.total_sol_collected == 0 {
        Some(SamesError::MathOverflow)
    } else if finalize_tokens(pool, record) > u64::MAX {
        Some(SamesError::MathOverflow)
    } else if pool.tokens_minted + finalize_tokens(pool, record) > u64::MAX {
        Some(SamesError::MathOverflow)
    } else {
        None
    }
}

/// The pool after a successful finalization: the allocation is counted
/// against the handed-out total.
pub open spec fn finalize_pool_after(pool: LaunchPool, record: BuyerRecord) -> LaunchPool {
    LaunchPool {
        tokens_minted: (pool.tokens_minted + finalize_tokens(pool, record)) as u64,
        ..pool
    }
}

/// The buyer's record after successful finalization.
pub open spec fn finalize_record_after(pool: LaunchPool, record: BuyerRecord) -> BuyerRecord {
    BuyerRecord {
        tokens_allocated: finalize_tokens(pool, record) as u64,
        entry_price: pool.price_lamports,
        finalized: true,
        ..record
    }
}

/// Finalize one participant once the presale window has elapsed: allocate
/// `floor(deposit * total_supply / total_collected)` tokens, count them
/// against the pool's handed-out total, pin the entry price to the
/// presale price, and mark the record finalized.  Returns the token
/// amount the issuance collaborator must mint.  Finalizing the same
/// participant twice, or one with no deposit, is rejected.
pub fn finalize_launch(pool: &mut LaunchPool, record: &mut BuyerRecord, caller: u64, now: i64) -> (r:
    Result<u64, SamesError>)
    ensures
        r is Err <==> finalize_error(*old(pool), *old(record), caller, now) is Some,
        r matches Err(e) ==> Some(e) == finalize_error(*old(pool), *old(record), caller, now)
            && *final(pool) == *old(pool) && *final(record) == *old(record),
        r matches Ok(tokens) ==> tokens == finalize_tokens(*old(pool), *old(record)) && *final(pool)
            == finalize_pool_after(*old(pool), *old(record)) && *final(record)
            == finalize_record_after(*old(pool), *old(record)),
        // Finalizing twice fails; finalizing a zero deposit fails.
        caller == old(pool).creator && now >= old(pool).end_time && old(pool).status is Presale
            && old(record).finalized ==> r == Err::<u64, SamesError>(SamesError::AlreadyFinalized),
        caller == old(pool).creator && now >= old(pool).end_time && old(pool).status is Presale
            && !old(record).finalized && old(record).sol_deposited == 0 ==> r == Err::<
            u64,
            SamesError,
        >(SamesError::ZeroDeposit),
{
    if caller != pool.creator {
        return Err(SamesError::UnauthorizedCreator);
    }
    if now < pool.end_time {
        return Err(SamesError::PresaleStillActive);
    }
    if pool.status != LaunchStatus::Presale {
        return Err(SamesError::AlreadyFinalized);
    }
    if record.finalized {
        return Err(SamesError::AlreadyFinalized);
    }
    if record.sol_deposited == 0 {
        return Err(SamesError::ZeroDeposit);
    }
    if pool.total_sol_collected == 0 {
        return Err(SamesError::MathOverflow);
    }
    proof {
        lemma_mul_le(
            record.sol_deposited as int,
            pool.total_supply as int,
            u64::MAX as int,
            u64::MAX as int,
        );
    }
    let numerator: u128 = (record.sol_deposited as u128) * (pool.total_supply as u128);
    let tokens_wide: u128 = numerator / (pool.total_sol_collected as u128);
    if tokens_wide > u64::MAX as u128 {
        return Err(SamesError::MathOverflow);
    }
    let tokens: u64 = tokens_wide as u64;
    let new_minted: u64 = match pool.tokens_minted.checked_add(tokens) {
        Some(v) => v,
        None => {
            return Err(SamesError::MathOverflow);
        },
    };
    record.tokens_allocated = tokens;
    record.entry_price = pool.price_lamports;
    record.finalized = true;
    pool.tokens_minted = new_minted;
    Ok(tokens)
}

// ─────────────────────────────────────────────────────────────────────────
// start_bonding_curve
// ─────────────────────────────────────────────────────────────────────────

/// Which error `start_bonding_curve` returns, if any.
pub open spec fn start_curve_error(pool: LaunchPool, caller: u64, now: i64) -> Option<SamesError> {
    if caller != pool.creator {
        Some(SamesError::UnauthorizedCreator)
    } else if !(pool.status is Presale) {
        Some(SamesError::AlreadyFinalized)
    } else if now < pool.end_time {
        Some(SamesError::PresaleStillActive)
    } else {
        None
    }
}

/// Flip the launch from `Presale` to `BondingCurve`.  Creator-only, and
/// only once the presale window has elapsed.  Decoupled from per-buyer
/// finalization so that finalization can proceed incrementally.
pub fn start_bonding_curve(pool: &mut LaunchPool, caller: u64, now: i64) -> (r: Result<
    (),
    SamesError,
>)
    ensures
        r is Err <==> start_curve_error(*old(pool), caller, now) is Some,
        r matches Err(e) ==> Some(e) == start_curve_error(*old(pool), caller, now) && *final(pool) == *old(
            pool,
        ),
        r is Ok ==> *final(pool) == (LaunchPool { status: LaunchStatus::BondingCurve, ..*old(pool) }),
{
    if caller != pool.creator {
        return Err(SamesError::UnauthorizedCreator);
    }
    if pool.status != LaunchStatus::Presale {
        return Err(SamesError::AlreadyFinalized);
    }
    if now < pool.end_time {
        return Err(SamesError::PresaleStillActive);
    }
    pool.status = LaunchStatus::BondingCurve;
    Ok(())
}

// ─────────────────────────────────────────────────────────────────────────
// buy_curve
// ─────────────────────────────────────────────────────────────────────────

/// Outcome of a successful curve buy: what the issuance collaborator must
/// mint and what the custody collaborator must debit.
#[derive(Clone, Copy, Debug, PartialEq, Eq, Structural)]
pub struct CurveBuy {
    /// Tokens to mint to the buyer.
    pub tokens: u64,
    /// Funds actually charged (at most the offered amount).
    pub cost: u64,
}

/// Tokens a curve buy of `sol_amount` yields at the pool's current state.
pub open spec fn curve_buy_tokens(pool: LaunchPool, sol_amount: u64) -> int {
    tokens_for_funds_int(
        pool.price_lamports as int,
        pool.slope_scaled as int,
        pool.tokens_sold_curve as int,
        sol_amount as int,
    )
}

/// Funds actually charged for those tokens.
pub open spec fn curve_buy_cost(pool: LaunchPool, sol_amount: u64) -> int {
    curve_cost_int(
        pool.price_lamports as int,
        pool.slope_scaled as int,
        pool.tokens_sold_curve as int,
        curve_buy_tokens(pool, sol_amount),
    )
}

/// Which error `buy_curve` returns, if any.
pub open spec fn curve_buy_error(
    pool: LaunchPool,
    record: BuyerRecord,
    sol_amount: u64,
) -> Option<SamesError> {
    if sol_amount == 0 {
        Some(SamesError::ZeroDeposit)
    } else if !(pool.status is BondingCurve) {
        Some(SamesError::NotBondingCurve)
    } else if !tokens_for_funds_ok(
        pool.price_lamports as int,
        pool.slope_scaled as int,
        pool.tokens_sold_curve as int,
        sol_amount as int,
    ) {
        Some(SamesError::MathOverflow)
    } else if curve_buy_tokens(pool, sol_amount) == 0 {
        Some(SamesError::ZeroDeposit)
    } else if !curve_cost_ok(
        pool.price_lamports as int,
        pool.slope_scaled as int,
        pool.tokens_sold_curve as int,
        curve_buy_tokens(pool, sol_amount),
    ) {
        Some(SamesError::MathOverflow)
    } else if curve_buy_cost(pool, sol_amount) > sol_amount {
        Some(SamesError::InsufficientBalance)
    } else if pool.tokens_minted + curve_buy_tokens(pool, sol_amount) > pool.total_supply {
        Some(SamesError::InsufficientBalance)
    } else if pool.tokens_sold_curve + curve_buy_tokens(pool, sol_amount) > u64::MAX {
        Some(SamesError::MathOverflow)
    } else if pool.curve_sol_collected + curve_buy_cost(pool, sol_amount) > u64::MAX {
        Some(SamesError::MathOverflow)
    } else if record_is_fresh(record) && pool.buyer_count + 1 > u32::MAX {
        Some(SamesError::MathOverflow)
    } else if record.curve_sol_spent + curve_buy_cost(pool, sol_amount) > u64::MAX {
        Some(SamesError::MathOverflow)
    } else if record.curve_tokens_bought + curve_buy_tokens(pool, sol_amount) > u64::MAX {
        Some(SamesError::MathOverflow)
    } else {
        None
    }
}

/// The pool after a successful curve buy.
pub open spec fn curve_buy_pool_after(
    pool: LaunchPool,
    record: BuyerRecord,
    sol_amount: u64,
) -> LaunchPool {
    LaunchPool {
        tokens_minted: (pool.tokens_minted + curve_buy_tokens(pool, sol_amount)) as u64,
        tokens_sold_curve: (pool.tokens_sold_curve + curve_buy_tokens(pool, sol_amount)) as u64,
        curve_sol_collected: (pool.curve_sol_collected + curve_buy_cost(pool, sol_amount)) as u64,
        buyer_count: if record_is_fresh(record) {
            (pool.buyer_count + 1) as u32
        } else {
            pool.buyer_count
        },
        ..pool
    }
}

/// The buyer's record after a successful curve buy: curve totals
/// accumulated, then the entry price recomputed as the funds-weighted
/// average across both phases.
pub open spec fn curve_buy_record_after(
    pool: LaunchPool,
    record: BuyerRecord,
    buyer: u64,
    sol_amount: u64,
) -> BuyerRecord {
    let base = if record_is_fresh(record) {
        BuyerRecord {
            launch_pool: pool.mint,
            buyer,
            tokens_allocated: 0,
            tokens_sold: 0,
            finalized: false,
            ..record
        }
    } else {
        record
    };
    let bumped = BuyerRecord {
        curve_sol_spent: (base.curve_sol_spent + curve_buy_cost(pool, sol_amount)) as u64,
        curve_tokens_bought: (base.curve_tokens_bought + curve_buy_tokens(pool, sol_amount)) as u64,
        ..base
    };
    BuyerRecord { entry_price: bumped.avg_entry_price_spec() as u64, ..bumped }
}

/// Buy on the bonding curve with `sol_amount` funds.  The buyer receives
/// the most tokens the funds cover at their exact curve cost, which never
/// exceeds the offered amount; a buy that would push the handed-out total
/// past the supply is rejected whole.  The pool's curve totals and the
/// buyer's weighted entry price are updated together, all-or-nothing.
pub fn buy_curve(
    pool: &mut LaunchPool,
    record: &mut BuyerRecord,
    buyer: u64,
    sol_amount: u64,
) -> (r: Result<CurveBuy, SamesError>)
    ensures
        r is Err <==> curve_buy_error(*old(pool), *old(record), sol_amount) is Some,
        r matches Err(e) ==> Some(e) == curve_buy_error(*old(pool), *old(record), sol_amount)
            && *final(pool) == *old(pool) && *final(record) == *old(record),
        r matches Ok(out) ==> {
            &&& out.tokens == curve_buy_tokens(*old(pool), sol_amount)
            &&& out.cost == curve_buy_cost(*old(pool), sol_amount)
            &&& out.cost <= sol_amount
            &&& *final(pool) == curve_buy_pool_after(*old(pool), *old(record), sol_amount)
            &&& *final(record) == curve_buy_record_after(*old(pool), *old(record), buyer, sol_amount)
        },
{
    if sol_amount == 0 {
        return Err(SamesError::ZeroDeposit);
    }
    if pool.status != LaunchStatus::BondingCurve {
        return Err(SamesError::NotBondingCurve);
    }
    let tokens: u64 = match bonding_curve_tokens_for_sol(
        pool.price_lamports,
        pool.slope_scaled,
        pool.tokens_sold_curve,
        sol_amount,
    ) {
        Some(v) => v,
        None => {
            return Err(SamesError::MathOverflow);
        },
    };
    if tokens == 0 {
        return Err(SamesError::ZeroDeposit);
    }
    let cost: u64 = match bonding_curve_cost(
        pool.price_lamports,
        pool.slope_scaled,
        pool.tokens_sold_curve,
        tokens,
    ) {
        Some(v) => v,
        None => {
            return Err(SamesError::MathOverflow);
        },
    };
    if cost > sol_amount {
        return Err(SamesError::InsufficientBalance);
    }
    let new_minted: u64 = match pool.tokens_minted.checked_add(tokens) {
        Some(v) => v,
        None => {
            return Err(SamesError::InsufficientBalance);
        },
    };
    if new_minted > pool.total_supply {
        return Err(SamesError::InsufficientBalance);
    }
    let new_sold: u64 = match pool.tokens_sold_curve.checked_add(tokens) {
        Some(v) => v,
        None => {
            return Err(SamesError::MathOverflow);
        },
    };
    let new_collected: u64 = match pool.curve_sol_collected.checked_add(cost) {
        Some(v) => v,
        None => {
            return Err(SamesError::MathOverflow);
        },
    };
    let fresh = record.sol_deposited == 0 && record.curve_sol_spent == 0;
    let new_buyer_count: u32 = if fresh {
        match pool.buyer_count.checked_add(1) {
            Some(v) => v,
            None => {
                return Err(SamesError::MathOverflow);
            },
        }
    } else {
        pool.buyer_count
    };
    let new_curve_sol: u64 = match record.curve_sol_spent.checked_add(cost) {
        Some(v) => v,
        None => {
            return Err(SamesError::MathOverflow);
        },
    };
    let new_curve_tokens: u64 = match record.curve_tokens_bought.checked_add(tokens) {
        Some(v) => v,
        None => {
            return Err(SamesError::MathOverflow);
        },
    };
    if fresh {
        record.launch_pool = pool.mint;
        record.buyer = buyer;
        record.tokens_allocated = 0;
        record.tokens_sold = 0;
        record.finalized = false;
    }
    record.curve_sol_spent = new_curve_sol;
    record.curve_tokens_bought = new_curve_tokens;
    let new_entry = record.average_entry_price();
    record.entry_price = new_entry;
    pool.tokens_minted = new_minted;
    pool.tokens_sold_curve = new_sold;
    pool.curve_sol_collected = new_collected;
    pool.buyer_count = new_buyer_count;
    Ok(CurveBuy { tokens, cost })
}

// ─────────────────────────────────────────────────────────────────────────
// sell_curve
// ─────────────────────────────────────────────────────────────────────────

/// Outcome of a successful curve sell: what the custody collaborator must
/// refund and the fee retained, and the tokens the issuance collaborator
/// must burn.
#[derive(Clone, Copy, Debug, PartialEq, Eq, Structural)]
pub struct CurveSell {
    /// Funds returned to the seller, net of the platform fee.
    pub sol_return: u64,
    /// Platform fee retained.
    pub fee: u64,
}

/// Curve position after removing `amount` sold-back tokens.
pub open spec fn curve_sell_sold_after(pool: LaunchPool, amount: u64) -> int {
    sat_sub_u64(pool.tokens_sold_curve as int, amount as int)
}

/// Gross refund for selling `amount` tokens: the cost of re-buying the
/// same slice of the curve.
pub open spec fn curve_sell_raw(pool: LaunchPool, amount: u64) -> int {
    curve_cost_int(
        pool.price_lamports as int,
        pool.slope_scaled as int,
        curve_sell_sold_after(pool, amount),
        amount as int,
    )
}

/// Platform fee on the gross refund, in basis points.
pub open spec fn curve_sell_fee(pool: LaunchPool, amount: u64) -> int {
    curve_sell_raw(pool, amount) * PLATFORM_FEE_BPS / (FEE_DENOMINATOR as int)
}

/// Which error `sell_curve` returns, if any.
pub open spec fn curve_sell_error(
    pool: LaunchPool,
    record: BuyerRecord,
    amount: u64,
) -> Option<SamesError> {
    if amount == 0 {
        Some(SamesError::ZeroSellAmount)
    } else if !(pool.status is BondingCurve) {
        Some(SamesError::NotBondingCurve)
    } else if amount > record.available_tokens_spec() {
        Some(SamesError::InsufficientBalance)
    } else if spot_price_int(
        pool.price_lamports as int,
        pool.slope_scaled as int,
        pool.tokens_sold_curve as int,
    ) < record.entry_price {
        Some(SamesError::SellBelowEntry)
    } else if !curve_cost_ok(
        pool.price_lamports as int,
        pool.slope_scaled as int,
        curve_sell_sold_after(pool, amount),
        amount as int,
    ) {
        Some(SamesError::MathOverflow)
    } else if curve_sell_raw(pool, amount) * PLATFORM_FEE_BPS > u64::MAX {
        Some(SamesError::MathOverflow)
    } else if record.tokens_sold + amount > u64::MAX {
        Some(SamesError::MathOverflow)
    } else {
        None
    }
}

/// The pool after a successful curve sell.
pub open spec fn curve_sell_pool_after(pool: LaunchPool, amount: u64) -> LaunchPool {
    LaunchPool {
        tokens_sold_curve: curve_sell_sold_after(pool, amount) as u64,
        curve_sol_collected: sat_sub_u64(
            pool.curve_sol_collected as int,
            curve_sell_raw(pool, amount),
        ) as u64,
        ..pool
    }
}

/// The seller's record after a successful curve sell.
pub open spec fn curve_sell_record_after(record: BuyerRecord, amount: u64) -> BuyerRecord {
    BuyerRecord { tokens_sold: (record.tokens_sold + amount) as u64, ..record }
}

/// Sell `token_amount` tokens back to the bonding curve.  The price floor
/// is enforced: if the current spot price is below the seller's entry
/// price the sell is rejected, whatever the amount.  The refund is the
/// cost of re-buying the same slice of the curve, minus the platform fee;
/// the returned outcome tells the collaborators what to move and burn.
pub fn sell_curve(pool: &mut LaunchPool, record: &mut BuyerRecord, token_amount: u64) -> (r: Result<
    CurveSell,
    SamesError,
>)
    ensures
        r is Err <==> curve_sell_error(*old(pool), *old(record), token_amount) is Some,
        r matches Err(e) ==> Some(e) == curve_sell_error(*old(pool), *old(record), token_amount)
            && *final(pool) == *old(pool) && *final(record) == *old(record),
        r matches Ok(out) ==> {
            &&& out.fee == curve_sell_fee(*old(pool), token_amount)
            &&& out.sol_return == curve_sell_raw(*old(pool), token_amount) - curve_sell_fee(
                *old(pool),
                token_amount,
            )
            &&& *final(pool) == curve_sell_pool_after(*old(pool), token_amount)
            &&& *final(record) == curve_sell_record_after(*old(record), token_amount)
        },
        // The price floor: a sell below the entry price is always
        // rejected, regardless of the requested amount being otherwise
        // valid.
        old(pool).status is BondingCurve && token_amount > 0 && token_amount <= old(
            record,
        ).available_tokens_spec() && spot_price_int(
            old(pool).price_lamports as int,
            old(pool).slope_scaled as int,
            old(pool).tokens_sold_curve as int,
        ) < old(record).entry_price ==> r == Err::<CurveSell, SamesError>(
            SamesError::SellBelowEntry,
        ),
{
    if token_amount == 0 {
        return Err(SamesError::ZeroSellAmount);
    }
    if pool.status != LaunchStatus::BondingCurve {
        return Err(SamesError::NotBondingCurve);
    }
    let total_tokens: u64 = if record.tokens_allocated > u64::MAX - record.curve_tokens_bought {
        u64::MAX
    } else {
        record.tokens_allocated + record.curve_tokens_bought
    };
    let available: u64 = if total_tokens >= record.tokens_sold {
        total_tokens - record.tokens_sold
    } else {
        0
    };
    if token_amount > available {
        return Err(SamesError::InsufficientBalance);
    }
    let current_price: u64 = bonding_curve_price(
        pool.price_lamports,
        pool.slope_scaled,
        pool.tokens_sold_curve,
    );
    if current_price < record.entry_price {
        return Err(SamesError::SellBelowEntry);
    }
    let sold_after: u64 = if pool.tokens_sold_curve >= token_amount {
        pool.tokens_sold_curve - token_amount
    } else {
        0
    };
    let sol_return_raw: u64 = match bonding_curve_cost(
        pool.price_lamports,
        pool.slope_scaled,
        sold_after,
        token_amount,
    ) {
        Some(v) => v,
        None => {
            return Err(SamesError::MathOverflow);
        },
    };
    let fee_numerator: u64 = match sol_return_raw.checked_mul(PLATFORM_FEE_BPS) {
        Some(v) => v,
        None => {
            return Err(SamesError::MathOverflow);
        },
    };
    let fee: u64 = fee_numerator / FEE_DENOMINATOR;
    proof {
        // fee == raw * BPS / DENOM <= raw, since BPS <= DENOM.
        lemma_div_is_ordered(
            sol_return_raw as int * PLATFORM_FEE_BPS as int,
            sol_return_raw as int * FEE_DENOMINATOR as int,
            FEE_DENOMINATOR as int,
        );
        lemma_div_multiples_vanish(sol_return_raw as int, FEE_DENOMINATOR as int);
    }
    let sol_return: u64 = sol_return_raw - fee;
    let new_tokens_sold: u64 = match record.tokens_sold.checked_add(token_amount) {
        Some(v) => v,
        None => {
            return Err(SamesError::MathOverflow);
        },
    };
    pool.tokens_sold_curve = sold_after;
    pool.curve_sol_collected = if pool.curve_sol_collected >= sol_return_raw {
        pool.curve_sol_collected - sol_return_raw
    } else {
        0
    };
    record.tokens_sold = new_tokens_sold;
    Ok(CurveSell { sol_return, fee })
}

// ─────────────────────────────────────────────────────────────────────────
// graduate
// ─────────────────────────────────────────────────────────────────────────

/// Which error `graduate` returns, if any.
pub open spec fn graduate_error(pool: LaunchPool) -> Option<SamesError> {
    if !(pool.status is BondingCurve) {
        Some(SamesError::NotBondingCurve)
    } else if pool.curve_sol_collected < pool.graduation_threshold {
        Some(SamesError::NotReadyToGraduate)
    } else {
        None
    }
}

/// Graduate the launch: callable by anyone once the curve has collected at
/// least the graduation threshold.  Flips the phase to `Graduated`, after
/// which the price floor no longer applies.
pub fn graduate(pool: &mut LaunchPool) -> (r: Result<(), SamesError>)
    ensures
        r is Err <==> graduate_error(*old(pool)) is Some,
        r matches Err(e) ==> Some(e) == graduate_error(*old(pool)) && *final(pool) == *old(pool),
        r is Ok ==> *final(pool) == (LaunchPool { status: LaunchStatus::Graduated, ..*old(pool) }),
        // Graduation is owed exactly when the threshold test holds.
        r is Ok <==> (old(pool).status is BondingCurve && old(pool).curve_sol_collected >= old(
            pool,
        ).graduation_threshold),
{
    if pool.status != LaunchStatus::BondingCurve {
        return Err(SamesError::NotBondingCurve);
    }
    if pool.curve_sol_collected < pool.graduation_threshold {
        return Err(SamesError::NotReadyToGraduate);
    }
    pool.status = LaunchStatus::Graduated;
    Ok(())
}

// ─────────────────────────────────────────────────────────────────────────
// update_price
// ─────────────────────────────────────────────────────────────────────────

/// Which error `update_price` returns, if any.
pub open spec fn update_price_error(pool: LaunchPool, authority: u64, new_price: u64) -> Option<
    SamesError,
> {
    if authority != pool.creator {
        Some(SamesError::UnauthorizedCreator)
    } else if new_price == 0 {
        Some(SamesError::ZeroPrice)
    } else {
        None
    }
}

/// Overwrite the reference price (the presale display price and the
/// curve's base price).  Creator-only; the new price must be positive.
pub fn update_price(pool: &mut LaunchPool, authority: u64, new_price: u64) -> (r: Result<
    (),
    SamesError,
>)
    ensures
        r is Err <==> update_price_error(*old(pool), authority, new_price) is Some,
        r matches Err(e) ==> Some(e) == update_price_error(*old(pool), authority, new_price)
            && *final(pool) == *old(pool),
        r is Ok ==> *final(pool) == (LaunchPool { price_lamports: new_price, ..*old(pool) }),
{
    if authority != pool.creator {
        return Err(SamesError::UnauthorizedCreator);
    }
    if new_price == 0 {
        return Err(SamesError::ZeroPrice);
    }
    pool.price_lamports = new_price;
    Ok(())
}

// ─────────────────────────────────────────────────────────────────────────
// register_market
// ─────────────────────────────────────────────────────────────────────────

/// Which error `register_market` returns, if any.
pub open spec fn register_market_error(
    registry: MarketRegistry,
    authority: u64,
) -> Option<SamesError> {
    if authority != registry.authority {
        Some(SamesError::UnauthorizedCreator)
    } else if registry.market_accounts@.len() >= MAX_MARKETS {
        Some(SamesError::InvalidMarket)
    } else {
        None
    }
}

/// Append a market destination to the launch's registry.  Authority-only;
/// rejected once the registry is at capacity.
pub fn register_market(registry: &mut MarketRegistry, authority: u64, market_account: u64) -> (r:
    Result<(), SamesError>)
    ensures
        r is Err <==> register_market_error(*old(registry), authority) is Some,
        r matches Err(e) ==> Some(e) == register_market_error(*old(registry), authority)
            && *final(registry) == *old(registry),
        r is Ok ==> final(registry).market_accounts@ == old(registry).market_accounts@.push(
            market_account,
        ) && final(registry).launch_pool == old(registry).launch_pool && final(registry).authority
            == old(registry).authority,
{
    if authority != registry.authority {
        return Err(SamesError::UnauthorizedCreator);
    }
    if registry.market_accounts.len() >= MAX_MARKETS {
        return Err(SamesError::InvalidMarket);
    }
    registry.market_accounts.push(market_account);
    Ok(())
}

} // verus!
