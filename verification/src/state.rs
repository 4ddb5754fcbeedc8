//! Launch state: the per-launch pool, the per-buyer ledger entry, and the
//! registry of market destinations.
//!
//! Identities (creator, mint, buyer, market accounts) are opaque to the
//! engine: it only ever compares them for equality, so they are carried as
//! plain `u64` handles resolved by the caller.  Funds and token amounts are
//! unsigned 64-bit quantities in the smallest indivisible unit; times are
//! signed 64-bit timestamps.

use crate::curve::bonding_curve_price;
use crate::curve::spot_price_int;
use vstd::prelude::*;

verus! {

/// Lifecycle phase of a launch.  Transitions are one-directional:
/// `Presale -> BondingCurve -> Graduated`, with `Closed` a terminal
/// cancellation state reachable from `Presale`.
#[derive(Clone, Copy, Debug, PartialEq, Eq, Structural)]
pub enum LaunchStatus {
    /// Fixed-price presale window is open.
    Presale,
    /// Bonding-curve trading; the price floor is enforced.
    BondingCurve,
    /// Graduated to open trading; the price floor is lifted.
    Graduated,
    /// Launch was closed or cancelled.
    Closed,
}

/// Maximum byte length of a token display name.
pub const MAX_NAME_LEN: usize = 32;

/// Maximum byte length of a token ticker symbol.
pub const MAX_SYMBOL_LEN: usize = 10;

/// Maximum number of registered market destinations per launch.
pub const MAX_MARKETS: usize = 16;

/// Per-launch aggregate state: identity, economics, the presale window,
/// collected totals, and the current phase.
#[derive(Debug)]
pub struct LaunchPool {
    /// Identity of the wallet that created this launch.
    pub creator: u64,
    /// Identity of the launched token.
    pub mint: u64,
    /// Display name, at most `MAX_NAME_LEN` UTF-8 bytes.
    pub token_name: Vec<u8>,
    /// Ticker symbol, at most `MAX_SYMBOL_LEN` UTF-8 bytes.
    pub token_symbol: Vec<u8>,
    /// Total token supply, fixed at creation.
    pub total_supply: u64,
    /// Cumulative tokens handed out: presale allocations plus curve
    /// purchases.  Never exceeds `total_supply`.
    pub tokens_minted: u64,
    /// Presale price and bonding-curve base price, in funds per token.
    pub price_lamports: u64,
    /// Curve slope, fixed-point scaled by 1e9; 0 means a flat price.
    pub slope_scaled: u64,
    /// Tokens currently outstanding on the bonding curve.
    pub tokens_sold_curve: u64,
    /// Funds currently held against bonding-curve sales.
    pub curve_sol_collected: u64,
    /// When the presale window opens.
    pub start_time: i64,
    /// When the presale window closes.
    pub end_time: i64,
    /// Funds collected during the presale.
    pub total_sol_collected: u64,
    /// Number of distinct participants across both phases.
    pub buyer_count: u32,
    /// Curve funding level at which the launch may graduate.
    pub graduation_threshold: u64,
    /// Current phase.
    pub status: LaunchStatus,
}

impl LaunchPool {
    /// Whether the presale is open for deposits at time `now`.
    pub fn is_presale_active(&self, now: i64) -> (r: bool)
        ensures
            r == (self.status is Presale && self.start_time <= now && now < self.end_time),
    {
        self.status == LaunchStatus::Presale && now >= self.start_time && now < self.end_time
    }

    /// Whether the presale window has elapsed at time `now`.
    pub fn is_presale_over(&self, now: i64) -> (r: bool)
        ensures
            r == (now >= self.end_time),
    {
        now >= self.end_time
    }

    /// Current market capitalisation: spot price times total supply.
    pub fn market_cap(&self) -> (r: u128)
        ensures
            r == spot_price_int(
                self.price_lamports as int,
                self.slope_scaled as int,
                self.tokens_sold_curve as int,
            ) * self.total_supply,
    {
        let price = bonding_curve_price(
            self.price_lamports,
            self.slope_scaled,
            self.tokens_sold_curve,
        );
        proof {
            crate::curve::lemma_mul_le(
                price as int,
                self.total_supply as int,
                u64::MAX as int,
                u64::MAX as int,
            );
        }
        (price as u128) * (self.total_supply as u128)
    }

    /// Whether the bonding curve has reached its graduation threshold:
    /// true exactly when the launch is in the curve phase and the collected
    /// curve funds are at or above the threshold.
    pub fn should_graduate(&self) -> (r: bool)
        ensures
            r == (self.status is BondingCurve && self.curve_sol_collected
                >= self.graduation_threshold),
    {
        self.status == LaunchStatus::BondingCurve && self.curve_sol_collected
            >= self.graduation_threshold
    }
}

/// Addition on token or funds amounts that sticks at `u64::MAX` instead of
/// wrapping, mirroring the saturating accumulations of derived quantities.
pub open spec fn sat_add_u64(a: int, b: int) -> int {
    if a + b > u64::MAX {
        u64::MAX as int
    } else {
        a + b
    }
}

/// Subtraction on token or funds amounts that stops at zero instead of
/// underflowing.
pub open spec fn sat_sub_u64(a: int, b: int) -> int {
    if a >= b {
        a - b
    } else {
        0
    }
}

/// Per-participant ledger entry: cost basis and remaining inventory for one
/// (launch, participant) pair.  Created on first deposit in either phase,
/// never deleted.
#[derive(Clone, Copy, Debug)]
pub struct BuyerRecord {
    /// The launch this record belongs to (the launch's mint identity).
    pub launch_pool: u64,
    /// The participant's identity.
    pub buyer: u64,
    /// Funds committed during the presale.
    pub sol_deposited: u64,
    /// Entry price in funds per token: the presale price for a
    /// presale-only participant, otherwise the funds-weighted average
    /// across both phases.
    pub entry_price: u64,
    /// Tokens allocated at presale finalization (set once).
    pub tokens_allocated: u64,
    /// Cumulative tokens sold back, either phase.
    pub tokens_sold: u64,
    /// Funds spent on bonding-curve buys.
    pub curve_sol_spent: u64,
    /// Tokens bought on the bonding curve.
    pub curve_tokens_bought: u64,
    /// Whether this participant's presale allocation has been issued.
    pub finalized: bool,
}

impl BuyerRecord {
    /// Total funds committed across both phases (saturating).
    pub open spec fn total_sol_spec(self) -> int {
        sat_add_u64(self.sol_deposited as int, self.curve_sol_spent as int)
    }

    /// Total tokens acquired across both phases (saturating).
    pub open spec fn total_tokens_spec(self) -> int {
        sat_add_u64(self.tokens_allocated as int, self.curve_tokens_bought as int)
    }

    /// Tokens still held: acquired minus sold, floored at zero.
    pub open spec fn available_tokens_spec(self) -> int {
        if self.total_tokens_spec() >= self.tokens_sold as int {
            self.total_tokens_spec() - self.tokens_sold as int
        } else {
            0
        }
    }

    /// The funds-weighted average acquisition price across presale and
    /// curve purchases, or 0 when the participant holds no position.
    pub open spec fn avg_entry_price_spec(self) -> int {
        if self.total_tokens_spec() == 0 {
            0
        } else {
            self.total_sol_spec() / self.total_tokens_spec()
        }
    }

    /// A fresh, never-used record for `buyer` under launch `launch_pool`.
    pub fn new(launch_pool: u64, buyer: u64) -> (r: BuyerRecord)
        ensures
            r == (BuyerRecord {
                launch_pool,
                buyer,
                sol_deposited: 0,
                entry_price: 0,
                tokens_allocated: 0,
                tokens_sold: 0,
                curve_sol_spent: 0,
                curve_tokens_bought: 0,
                finalized: false,
            }),
    {
        BuyerRecord {
            launch_pool,
            buyer,
            sol_deposited: 0,
            entry_price: 0,
            tokens_allocated: 0,
            tokens_sold: 0,
            curve_sol_spent: 0,
            curve_tokens_bought: 0,
            finalized: false,
        }
    }

    /// Average entry price across presale and curve purchases; 0 means
    /// "no position".
    pub fn average_entry_price(&self) -> (r: u64)
        ensures
            r == self.avg_entry_price_spec(),
    {
        let total_sol: u64 = if self.sol_deposited > u64::MAX - self.curve_sol_spent {
            u64::MAX
        } else {
            self.sol_deposited + self.curve_sol_spent
        };
        let total_tokens: u64 = if self.tokens_allocated > u64::MAX - self.curve_tokens_bought {
            u64::MAX
        } else {
            self.tokens_allocated + self.curve_tokens_bought
        };
        if total_tokens == 0 {
            return 0;
        }
        total_sol / total_tokens
    }
}

/// Append-only whitelist of market/DEX destination identities for one
/// launch; transfers to these destinations are treated as sells by the
/// price-floor guard.
#[derive(Debug)]
pub struct MarketRegistry {
    /// The launch this registry belongs to (the launch's mint identity).
    pub launch_pool: u64,
    /// The only identity allowed to register new markets.
    pub authority: u64,
    /// Registered market destinations, at most `MAX_MARKETS`.
    pub market_accounts: Vec<u64>,
}

impl MarketRegistry {
    /// Membership test: whether `account` is a registered market.
    pub fn is_market(&self, account: u64) -> (r: bool)
        ensures
            r == self.market_accounts@.contains(account),
    {
        let n = self.market_accounts.len();
        let mut i: usize = 0;
        while i < n
            invariant
                n == self.market_accounts.len(),
                i <= n,
                forall|j: int| 0 <= j < i ==> self.market_accounts@[j] != account,
            decreases n - i,
        {
            if self.market_accounts[i] == account {
                return true;
            }
            i += 1;
        }
        false
    }
}

} // verus!
