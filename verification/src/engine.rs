//! A whole-launch store: the pool, its market registry, and every
//! participant's ledger entry under one roof, with the launch-wide
//! invariant tying them together.
//!
//! The per-operation logic lives in [`crate::ops`]; this module keys the
//! ledger by participant, routes each operation to the right entry, and
//! proves that the bookkeeping invariant [`Launch::wf`] — aggregate totals
//! equal to ledger sums, and the tokens handed out bounded by the total
//! supply in every phase — is preserved by every operation.
//!
//! Time is supplied by the caller.  The engine records the latest time it
//! has seen and requires the clock never to run backwards, which is what
//! the serialized-transaction environment guarantees.

use crate::errors::SamesError;
use crate::ops::curve_buy_error;
use crate::ops::curve_buy_pool_after;
use crate::ops::curve_buy_record_after;
use crate::ops::curve_sell_error;
use crate::ops::curve_sell_pool_after;
use crate::ops::curve_sell_record_after;
use crate::ops::finalize_error;
use crate::ops::finalize_pool_after;
use crate::ops::finalize_record_after;
use crate::ops::finalize_tokens;
use crate::ops::graduate_error;
use crate::ops::presale_deposit_error;
use crate::ops::presale_pool_after;
use crate::ops::presale_record_after;
use crate::ops::record_is_fresh;
use crate::ops::register_market_error;
use crate::ops::start_curve_error;
use crate::ops::update_price_error;
use crate::ops::CurveBuy;
use crate::ops::CurveSell;
use crate::state::BuyerRecord;
use crate::state::LaunchPool;
use crate::state::LaunchStatus;
use crate::state::sat_add_u64;
use crate::state::MarketRegistry;
use crate::state::MAX_MARKETS;
use vstd::arithmetic::div_mod::lemma_fundamental_div_mod;
use vstd::arithmetic::div_mod::lemma_mod_division_less_than_divisor;
use vstd::pervasive::VecAdditionalExecFns;
use vstd::prelude::*;

verus! {

// ─────────────────────────────────────────────────────────────────────────
// Ledger sums.
// ─────────────────────────────────────────────────────────────────────────

/// Total presale deposits across a ledger.
pub open spec fn sum_deposits(s: Seq<BuyerRecord>) -> int
    decreases s.len(),
{
    if s.len() == 0 {
        0
    } else {
        sum_deposits(s.drop_last()) + s.last().sol_deposited
    }
}

/// Total presale deposits of the finalized entries alone.
pub open spec fn sum_finalized_deposits(s: Seq<BuyerRecord>) -> int
    decreases s.len(),
{
    if s.len() == 0 {
        0
    } else {
        sum_finalized_deposits(s.drop_last()) + if s.last().finalized {
            s.last().sol_deposited as int
        } else {
            0
        }
    }
}

/// Total presale allocations across a ledger.
pub open spec fn sum_allocated(s: Seq<BuyerRecord>) -> int
    decreases s.len(),
{
    if s.len() == 0 {
        0
    } else {
        sum_allocated(s.drop_last()) + s.last().tokens_allocated
    }
}

/// Total tokens handed out across a ledger: presale allocations plus
/// curve purchases.
pub open spec fn sum_tokens(s: Seq<BuyerRecord>) -> int
    decreases s.len(),
{
    if s.len() == 0 {
        0
    } else {
        sum_tokens(s.drop_last()) + s.last().tokens_allocated + s.last().curve_tokens_bought
    }
}

proof fn lemma_sums_push(s: Seq<BuyerRecord>, r: BuyerRecord)
    ensures
        sum_deposits(s.push(r)) == sum_deposits(s) + r.sol_deposited,
        sum_finalized_deposits(s.push(r)) == sum_finalized_deposits(s) + if r.finalized {
            r.sol_deposited as int
        } else {
            0
        },
        sum_allocated(s.push(r)) == sum_allocated(s) + r.tokens_allocated,
        sum_tokens(s.push(r)) == sum_tokens(s) + r.tokens_allocated + r.curve_tokens_bought,
{
    assert(s.push(r).drop_last() =~= s);
}

proof fn lemma_sums_update(s: Seq<BuyerRecord>, i: int, r: BuyerRecord)
    requires
        0 <= i < s.len(),
    ensures
        sum_deposits(s.update(i, r)) == sum_deposits(s) - s[i].sol_deposited + r.sol_deposited,
        sum_finalized_deposits(s.update(i, r)) == sum_finalized_deposits(s) - (if s[i].finalized {
            s[i].sol_deposited as int
        } else {
            0
        }) + (if r.finalized {
            r.sol_deposited as int
        } else {
            0
        }),
        sum_allocated(s.update(i, r)) == sum_allocated(s) - s[i].tokens_allocated
            + r.tokens_allocated,
        sum_tokens(s.update(i, r)) == sum_tokens(s) - s[i].tokens_allocated
            - s[i].curve_tokens_bought + r.tokens_allocated + r.curve_tokens_bought,
    decreases s.len(),
{
    if i == s.len() - 1 {
        assert(s.update(i, r).drop_last() =~= s.drop_last());
        assert(s.update(i, r).last() == r);
    } else {
        assert(s.update(i, r).drop_last() =~= s.drop_last().update(i, r));
        assert(s.update(i, r).last() == s.last());
        lemma_sums_update(s.drop_last(), i, r);
    }
}

/// The finalized entries' deposits are part of all deposits.
proof fn lemma_sum_finalized_le_deposits(s: Seq<BuyerRecord>)
    ensures
        sum_finalized_deposits(s) <= sum_deposits(s),
        0 <= sum_finalized_deposits(s),
    decreases s.len(),
{
    if s.len() > 0 {
        lemma_sum_finalized_le_deposits(s.drop_last());
    }
}

/// A ledger with no finalized entry has no finalized deposits.
proof fn lemma_sum_finalized_deposits_zero(s: Seq<BuyerRecord>)
    requires
        forall|i: int| 0 <= i < s.len() ==> !(#[trigger] s[i]).finalized,
    ensures
        sum_finalized_deposits(s) == 0,
    decreases s.len(),
{
    if s.len() > 0 {
        assert(forall|i: int|
            0 <= i < s.drop_last().len() ==> !(#[trigger] s.drop_last()[i]).finalized);
        lemma_sum_finalized_deposits_zero(s.drop_last());
    }
}

/// A ledger whose entries hold no allocation sums to none.
proof fn lemma_sum_allocated_zero(s: Seq<BuyerRecord>)
    requires
        forall|i: int| 0 <= i < s.len() ==> (#[trigger] s[i]).tokens_allocated == 0,
    ensures
        sum_allocated(s) == 0,
    decreases s.len(),
{
    if s.len() > 0 {
        assert(forall|i: int|
            0 <= i < s.drop_last().len() ==> (#[trigger] s.drop_last()[i]).tokens_allocated == 0);
        lemma_sum_allocated_zero(s.drop_last());
    }
}

/// With no curve purchases, the tokens handed out are exactly the presale
/// allocations.
proof fn lemma_sum_tokens_eq_allocated(s: Seq<BuyerRecord>)
    requires
        forall|i: int| 0 <= i < s.len() ==> (#[trigger] s[i]).curve_tokens_bought == 0,
    ensures
        sum_tokens(s) == sum_allocated(s),
    decreases s.len(),
{
    if s.len() > 0 {
        assert(forall|i: int|
            0 <= i < s.drop_last().len() ==> (#[trigger] s.drop_last()[i]).curve_tokens_bought
                == 0);
        lemma_sum_tokens_eq_allocated(s.drop_last());
    }
}

// ─────────────────────────────────────────────────────────────────────────
// The launch store.
// ─────────────────────────────────────────────────────────────────────────

/// A never-used ledger entry for `buyer` under the launch identified by
/// `mint`.
pub open spec fn fresh_record(mint: u64, buyer: u64) -> BuyerRecord {
    BuyerRecord {
        launch_pool: mint,
        buyer,
        sol_deposited: 0,
        entry_price: 0,
        tokens_allocated: 0,
        tokens_sold: 0,
        curve_sol_spent: 0,
        curve_tokens_bought: 0,
        finalized: false,
    }
}

/// One launch with its complete ledger: the pool aggregates, the market
/// registry, and one entry per participant.
#[derive(Debug)]
pub struct Launch {
    /// The aggregate pool state.
    pub pool: LaunchPool,
    /// The launch's market registry.
    pub registry: MarketRegistry,
    /// One ledger entry per participant.
    pub entries: Vec<BuyerRecord>,
    /// The latest time any operation has observed.
    pub clock: i64,
}

impl Launch {
    /// Conditions every ledger entry satisfies under [`Launch::wf`].
    pub open spec fn entry_ok(self, r: BuyerRecord) -> bool {
        &&& r.launch_pool == self.pool.mint
        &&& !record_is_fresh(r)
        &&& (!r.finalized ==> r.tokens_allocated == 0)
        &&& (r.finalized ==> r.sol_deposited > 0 && self.clock >= self.pool.end_time)
        &&& (self.pool.status is Presale ==> r.curve_sol_spent == 0 && r.curve_tokens_bought == 0
            && r.tokens_sold == 0)
        &&& r.tokens_sold <= sat_add_u64(r.tokens_allocated as int, r.curve_tokens_bought as int)
    }

    /// The launch-wide invariant: every operation preserves it.
    ///
    /// The aggregate totals equal the ledger sums; participants are keyed
    /// uniquely; entries only ever exist for participants who deposited or
    /// bought; finalization implies a positive deposit and an elapsed
    /// window; during the presale the allocations handed out stay
    /// proportional to the finalized deposits; and in every phase the
    /// handed-out total `tokens_minted` equals the ledger sum and stays
    /// within the total supply.
    pub open spec fn wf(self) -> bool {
        &&& forall|i: int, j: int|
            0 <= i < j < self.entries@.len() ==> (#[trigger] self.entries@[i]).buyer != (
            #[trigger] self.entries@[j]).buyer
        &&& forall|i: int|
            0 <= i < self.entries@.len() ==> self.entry_ok(#[trigger] self.entries@[i])
        &&& self.pool.total_sol_collected == sum_deposits(self.entries@)
        &&& self.pool.buyer_count == self.entries@.len()
        &&& self.pool.total_supply > 0
        &&& self.pool.price_lamports > 0
        &&& self.pool.tokens_minted == sum_tokens(self.entries@)
        &&& self.pool.tokens_minted <= self.pool.total_supply
        &&& (self.pool.status is Presale ==> self.pool.tokens_sold_curve == 0
            && self.pool.curve_sol_collected == 0)
        &&& (self.pool.status is Presale ==> sum_allocated(self.entries@)
            * self.pool.total_sol_collected <= self.pool.total_supply * sum_finalized_deposits(
            self.entries@,
        ))
        &&& self.registry.authority == self.pool.creator
        &&& self.registry.launch_pool == self.pool.mint
        &&& self.registry.market_accounts@.len() <= MAX_MARKETS
    }

    /// Whether `buyer` already has a ledger entry.
    pub open spec fn spec_has_entry(self, buyer: u64) -> bool {
        exists|i: int| 0 <= i < self.entries@.len() && (#[trigger] self.entries@[i]).buyer == buyer
    }

    /// The index of `buyer`'s ledger entry (meaningful when one exists).
    pub open spec fn spec_entry_index(self, buyer: u64) -> int {
        choose|i: int| 0 <= i < self.entries@.len() && (#[trigger] self.entries@[i]).buyer == buyer
    }

    /// `buyer`'s current entry, or a fresh one if they never took part.
    pub open spec fn entry_or_fresh(self, buyer: u64) -> BuyerRecord {
        if self.spec_has_entry(buyer) {
            self.entries@[self.spec_entry_index(buyer)]
        } else {
            fresh_record(self.pool.mint, buyer)
        }
    }

    /// Locate `buyer`'s ledger entry.
    fn find_entry(&self, buyer: u64) -> (r: Option<usize>)
        ensures
            r matches Some(i) ==> 0 <= i < self.entries@.len() && self.entries@[i as int].buyer
                == buyer,
            r is None ==> !self.spec_has_entry(buyer),
            r is Some <==> self.spec_has_entry(buyer),
    {
        let n = self.entries.len();
        let mut i: usize = 0;
        while i < n
            invariant
                n == self.entries@.len(),
                i <= n,
                forall|j: int| 0 <= j < i ==> (#[trigger] self.entries@[j]).buyer != buyer,
            decreases n - i,
        {
            if self.entries[i].buyer == buyer {
                return Some(i);
            }
            i += 1;
        }
        None
    }

    /// Create a launch: an initial pool in the `Presale` phase, an empty
    /// registry, and an empty ledger.
    pub fn create(
        creator: u64,
        mint: u64,
        token_name: Vec<u8>,
        token_symbol: Vec<u8>,
        total_supply: u64,
        price_lamports: u64,
        window_seconds: u32,
        now: i64,
    ) -> (r: Result<Launch, SamesError>)
        ensures
            r is Err <==> crate::ops::create_launch_error(
                token_name@,
                token_symbol@,
                total_supply,
                price_lamports,
                window_seconds,
                now,
            ) is Some,
            r matches Err(e) ==> Some(e) == crate::ops::create_launch_error(
                token_name@,
                token_symbol@,
                total_supply,
                price_lamports,
                window_seconds,
                now,
            ),
            r matches Ok(launch) ==> {
                &&& launch.wf()
                &&& launch.pool.creator == creator
                &&& launch.pool.mint == mint
                &&& launch.pool.token_name@ == token_name@
                &&& launch.pool.token_symbol@ == token_symbol@
                &&& launch.pool.total_supply == total_supply
                &&& launch.pool.price_lamports == price_lamports
                &&& launch.pool.start_time == now
                &&& launch.pool.end_time == now + window_seconds
                &&& launch.pool.status is Presale
                &&& launch.entries@.len() == 0
                &&& launch.clock == now
            },
    {
        let created = crate::ops::create_launch(
            creator,
            mint,
            token_name,
            token_symbol,
            total_supply,
            price_lamports,
            window_seconds,
            now,
        );
        match created {
            Ok((pool, registry)) => {
                let launch = Launch { pool, registry, entries: Vec::new(), clock: now };
                Ok(launch)
            },
            Err(e) => Err(e),
        }
    }

    /// Deposit during the presale window.  Creates the buyer's ledger
    /// entry on first contact; rejected deposits change nothing.
    pub fn buy_presale(&mut self, buyer: u64, now: i64, sol_amount: u64) -> (r: Result<
        (),
        SamesError,
    >)
        requires
            old(self).wf(),
            now >= old(self).clock,
        ensures
            final(self).wf(),
            r is Err <==> presale_deposit_error(
                old(self).pool,
                old(self).entry_or_fresh(buyer),
                now,
                sol_amount,
            ) is Some,
            r matches Err(e) ==> Some(e) == presale_deposit_error(
                old(self).pool,
                old(self).entry_or_fresh(buyer),
                now,
                sol_amount,
            ) && *final(self) == *old(self),
            r is Ok ==> {
                &&& final(self).pool == presale_pool_after(
                    old(self).pool,
                    old(self).entry_or_fresh(buyer),
                    sol_amount,
                )
                &&& final(self).registry == old(self).registry
                &&& final(self).clock == now
                &&& final(self).entries@ == (if old(self).spec_has_entry(buyer) {
                    old(self).entries@.update(
                        old(self).spec_entry_index(buyer),
                        presale_record_after(
                            old(self).pool,
                            old(self).entry_or_fresh(buyer),
                            buyer,
                            sol_amount,
                        ),
                    )
                } else {
                    old(self).entries@.push(
                        presale_record_after(
                            old(self).pool,
                            old(self).entry_or_fresh(buyer),
                            buyer,
                            sol_amount,
                        ),
                    )
                })
            },
    {
        let found = self.find_entry(buyer);
        match found {
            Some(i) => {
                proof {
                    let ghost j = self.spec_entry_index(buyer);
                    assert(self.entries@[i as int].buyer == buyer);
                    assert(0 <= j < self.entries@.len() && self.entries@[j].buyer == buyer);
                    if j != i as int {
                        assert(false);  // distinct buyers force j == i
                    }
                }
                let mut rec = self.entries[i];
                let res = crate::ops::buy_presale(&mut self.pool, &mut rec, buyer, now, sol_amount);
                match res {
                    Ok(()) => {
                        self.entries.set(i, rec);
                        self.clock = now;
                        proof {
                            lemma_buy_presale_preserves_wf(*old(self), *self, buyer, now, sol_amount, i as int);
                        }
                        Ok(())
                    },
                    Err(e) => Err(e),
                }
            },
            None => {
                let mut rec = BuyerRecord::new(self.pool.mint, buyer);
                let res = crate::ops::buy_presale(&mut self.pool, &mut rec, buyer, now, sol_amount);
                match res {
                    Ok(()) => {
                        self.entries.push(rec);
                        self.clock = now;
                        proof {
                            lemma_buy_presale_preserves_wf_push(*old(self), *self, buyer, now, sol_amount);
                        }
                        Ok(())
                    },
                    Err(e) => Err(e),
                }
            },
        }
    }
}

impl Launch {
    /// Finalize one participant's presale allocation.  Returns the token
    /// amount the issuance collaborator must mint.
    pub fn finalize(&mut self, caller: u64, buyer: u64, now: i64) -> (r: Result<u64, SamesError>)
        requires
            old(self).wf(),
            now >= old(self).clock,
        ensures
            final(self).wf(),
            !old(self).spec_has_entry(buyer) ==> r == Err::<u64, SamesError>(
                SamesError::NoBuyerRecord,
            ) && *final(self) == *old(self),
            old(self).spec_has_entry(buyer) ==> {
                let e = old(self).entry_or_fresh(buyer);
                &&& (r is Err <==> finalize_error(old(self).pool, e, caller, now) is Some)
                &&& (r matches Err(err) ==> Some(err) == finalize_error(
                    old(self).pool,
                    e,
                    caller,
                    now,
                ) && *final(self) == *old(self))
                &&& (r matches Ok(tokens) ==> {
                    &&& tokens == finalize_tokens(old(self).pool, e)
                    &&& final(self).pool == finalize_pool_after(old(self).pool, e)
                    &&& final(self).registry == old(self).registry
                    &&& final(self).clock == now
                    &&& final(self).entries@ == old(self).entries@.update(
                        old(self).spec_entry_index(buyer),
                        finalize_record_after(old(self).pool, e),
                    )
                })
            },
    {
        let found = self.find_entry(buyer);
        match found {
            Some(i) => {
                proof {
                    let ghost j = self.spec_entry_index(buyer);
                    if j != i as int {
                        assert(false);  // distinct buyers force j == i
                    }
                }
                let mut rec = self.entries[i];
                let res = crate::ops::finalize_launch(&mut self.pool, &mut rec, caller, now);
                match res {
                    Ok(tokens) => {
                        self.entries.set(i, rec);
                        self.clock = now;
                        proof {
                            lemma_finalize_preserves_wf(*old(self), *self, caller, now, i as int);
                        }
                        Ok(tokens)
                    },
                    Err(e) => Err(e),
                }
            },
            None => Err(SamesError::NoBuyerRecord),
        }
    }

    /// Flip the launch to the bonding-curve phase (creator-only, window
    /// elapsed).
    pub fn start_bonding_curve(&mut self, caller: u64, now: i64) -> (r: Result<(), SamesError>)
        requires
            old(self).wf(),
            now >= old(self).clock,
        ensures
            final(self).wf(),
            r is Err <==> start_curve_error(old(self).pool, caller, now) is Some,
            r matches Err(e) ==> Some(e) == start_curve_error(old(self).pool, caller, now)
                && *final(self) == *old(self),
            r is Ok ==> *final(self) == (Launch {
                pool: LaunchPool { status: LaunchStatus::BondingCurve, ..old(self).pool },
                clock: now,
                ..*old(self)
            }),
    {
        let res = crate::ops::start_bonding_curve(&mut self.pool, caller, now);
        match res {
            Ok(()) => {
                self.clock = now;
                proof {
                    assert forall|k: int|
                        0 <= k < self.entries@.len() implies self.entry_ok(
                        #[trigger] self.entries@[k],
                    ) by {
                        assert(old(self).entry_ok(old(self).entries@[k]));
                    }
                }
                Ok(())
            },
            Err(e) => Err(e),
        }
    }

    /// Buy on the bonding curve.  Creates the buyer's ledger entry on
    /// first contact; returns what the collaborators must mint and debit.
    pub fn buy_curve(&mut self, buyer: u64, sol_amount: u64) -> (r: Result<CurveBuy, SamesError>)
        requires
            old(self).wf(),
        ensures
            final(self).wf(),
            r is Err <==> curve_buy_error(
                old(self).pool,
                old(self).entry_or_fresh(buyer),
                sol_amount,
            ) is Some,
            r matches Err(e) ==> Some(e) == curve_buy_error(
                old(self).pool,
                old(self).entry_or_fresh(buyer),
                sol_amount,
            ) && *final(self) == *old(self),
            r matches Ok(out) ==> {
                let e = old(self).entry_or_fresh(buyer);
                &&& out.tokens == crate::ops::curve_buy_tokens(old(self).pool, sol_amount)
                &&& out.cost == crate::ops::curve_buy_cost(old(self).pool, sol_amount)
                &&& out.cost <= sol_amount
                &&& final(self).pool == curve_buy_pool_after(old(self).pool, e, sol_amount)
                &&& final(self).registry == old(self).registry
                &&& final(self).clock == old(self).clock
                &&& final(self).entries@ == (if old(self).spec_has_entry(buyer) {
                    old(self).entries@.update(
                        old(self).spec_entry_index(buyer),
                        curve_buy_record_after(old(self).pool, e, buyer, sol_amount),
                    )
                } else {
                    old(self).entries@.push(
                        curve_buy_record_after(old(self).pool, e, buyer, sol_amount),
                    )
                })
            },
    {
        let found = self.find_entry(buyer);
        match found {
            Some(i) => {
                proof {
                    let ghost j = self.spec_entry_index(buyer);
                    if j != i as int {
                        assert(false);  // distinct buyers force j == i
                    }
                }
                let mut rec = self.entries[i];
                let res = crate::ops::buy_curve(&mut self.pool, &mut rec, buyer, sol_amount);
                match res {
                    Ok(out) => {
                        self.entries.set(i, rec);
                        proof {
                            lemma_buy_curve_preserves_wf(*old(self), *self, buyer, sol_amount, i as int);
                        }
                        Ok(out)
                    },
                    Err(e) => Err(e),
                }
            },
            None => {
                let mut rec = BuyerRecord::new(self.pool.mint, buyer);
                let res = crate::ops::buy_curve(&mut self.pool, &mut rec, buyer, sol_amount);
                match res {
                    Ok(out) => {
                        self.entries.push(rec);
                        proof {
                            lemma_buy_curve_preserves_wf_push(*old(self), *self, buyer, sol_amount);
                        }
                        Ok(out)
                    },
                    Err(e) => Err(e),
                }
            },
        }
    }

    /// Sell back to the bonding curve, under the price floor.  Returns
    /// what the custody collaborator must refund and the issuance
    /// collaborator must burn.
    pub fn sell_curve(&mut self, seller: u64, token_amount: u64) -> (r: Result<
        CurveSell,
        SamesError,
    >)
        requires
            old(self).wf(),
        ensures
            final(self).wf(),
            !old(self).spec_has_entry(seller) ==> r == Err::<CurveSell, SamesError>(
                SamesError::NoBuyerRecord,
            ) && *final(self) == *old(self),
            old(self).spec_has_entry(seller) ==> {
                let e = old(self).entry_or_fresh(seller);
                &&& (r is Err <==> curve_sell_error(old(self).pool, e, token_amount) is Some)
                &&& (r matches Err(err) ==> Some(err) == curve_sell_error(
                    old(self).pool,
                    e,
                    token_amount,
                ) && *final(self) == *old(self))
                &&& (r matches Ok(out) ==> {
                    &&& out.fee == crate::ops::curve_sell_fee(old(self).pool, token_amount)
                    &&& out.sol_return == crate::ops::curve_sell_raw(old(self).pool, token_amount)
                        - crate::ops::curve_sell_fee(old(self).pool, token_amount)
                    &&& final(self).pool == curve_sell_pool_after(old(self).pool, token_amount)
                    &&& final(self).registry == old(self).registry
                    &&& final(self).clock == old(self).clock
                    &&& final(self).entries@ == old(self).entries@.update(
                        old(self).spec_entry_index(seller),
                        curve_sell_record_after(e, token_amount),
                    )
                })
            },
    {
        let found = self.find_entry(seller);
        match found {
            Some(i) => {
                proof {
                    let ghost j = self.spec_entry_index(seller);
                    if j != i as int {
                        assert(false);  // distinct buyers force j == i
                    }
                }
                let mut rec = self.entries[i];
                let res = crate::ops::sell_curve(&mut self.pool, &mut rec, token_amount);
                match res {
                    Ok(out) => {
                        self.entries.set(i, rec);
                        proof {
                            lemma_sell_curve_preserves_wf(*old(self), *self, token_amount, i as int);
                        }
                        Ok(out)
                    },
                    Err(e) => Err(e),
                }
            },
            None => Err(SamesError::NoBuyerRecord),
        }
    }

    /// Graduate the launch once the curve funding threshold is met.
    pub fn graduate(&mut self) -> (r: Result<(), SamesError>)
        requires
            old(self).wf(),
        ensures
            final(self).wf(),
            r is Err <==> graduate_error(old(self).pool) is Some,
            r matches Err(e) ==> Some(e) == graduate_error(old(self).pool) && *final(self) == *old(
                self,
            ),
            r is Ok ==> *final(self) == (Launch {
                pool: LaunchPool { status: LaunchStatus::Graduated, ..old(self).pool },
                ..*old(self)
            }),
    {
        let res = crate::ops::graduate(&mut self.pool);
        match res {
            Ok(()) => {
                proof {
                    assert forall|k: int|
                        0 <= k < self.entries@.len() implies self.entry_ok(
                        #[trigger] self.entries@[k],
                    ) by {
                        assert(old(self).entry_ok(old(self).entries@[k]));
                    }
                }
                Ok(())
            },
            Err(e) => Err(e),
        }
    }

    /// Overwrite the reference price (creator-only, positive).
    pub fn update_price(&mut self, authority: u64, new_price: u64) -> (r: Result<(), SamesError>)
        requires
            old(self).wf(),
        ensures
            final(self).wf(),
            r is Err <==> update_price_error(old(self).pool, authority, new_price) is Some,
            r matches Err(e) ==> Some(e) == update_price_error(old(self).pool, authority, new_price)
                && *final(self) == *old(self),
            r is Ok ==> *final(self) == (Launch {
                pool: LaunchPool { price_lamports: new_price, ..old(self).pool },
                ..*old(self)
            }),
    {
        let res = crate::ops::update_price(&mut self.pool, authority, new_price);
        match res {
            Ok(()) => {
                proof {
                    assert forall|k: int|
                        0 <= k < self.entries@.len() implies self.entry_ok(
                        #[trigger] self.entries@[k],
                    ) by {
                        assert(old(self).entry_ok(old(self).entries@[k]));
                    }
                }
                Ok(())
            },
            Err(e) => Err(e),
        }
    }

    /// Append a market destination to the registry (authority-only).
    pub fn register_market(&mut self, authority: u64, market_account: u64) -> (r: Result<
        (),
        SamesError,
    >)
        requires
            old(self).wf(),
        ensures
            final(self).wf(),
            r is Err <==> register_market_error(old(self).registry, authority) is Some,
            r matches Err(e) ==> Some(e) == register_market_error(old(self).registry, authority)
                && *final(self) == *old(self),
            r is Ok ==> final(self).registry.market_accounts@ == old(
                self,
            ).registry.market_accounts@.push(market_account) && final(self).pool == old(self).pool
                && final(self).entries@ == old(self).entries@ && final(self).clock == old(
                self,
            ).clock,
    {
        let res = crate::ops::register_market(&mut self.registry, authority, market_account);
        match res {
            Ok(()) => {
                proof {
                    assert forall|k: int|
                        0 <= k < self.entries@.len() implies self.entry_ok(
                        #[trigger] self.entries@[k],
                    ) by {
                        assert(old(self).entry_ok(old(self).entries@[k]));
                    }
                }
                Ok(())
            },
            Err(e) => Err(e),
        }
    }
}

proof fn lemma_sum_tokens_take_succ(s: Seq<BuyerRecord>, i: int)
    requires
        0 <= i < s.len(),
    ensures
        sum_tokens(s.take(i + 1)) == sum_tokens(s.take(i)) + s[i].tokens_allocated
            + s[i].curve_tokens_bought,
{
    assert(s.take(i + 1).drop_last() =~= s.take(i));
    assert(s.take(i + 1).last() == s[i]);
}

proof fn lemma_sum_tokens_take_le(s: Seq<BuyerRecord>, i: int)
    requires
        0 <= i <= s.len(),
    ensures
        sum_tokens(s.take(i)) <= sum_tokens(s),
    decreases s.len() - i,
{
    if i == s.len() {
        assert(s.take(i) =~= s);
    } else {
        lemma_sum_tokens_take_succ(s, i);
        lemma_sum_tokens_take_le(s, i + 1);
    }
}

impl Launch {
    /// Total tokens handed out across the ledger: presale allocations
    /// plus curve purchases.
    pub fn tokens_handed_out(&self) -> (r: u64)
        requires
            sum_tokens(self.entries@) <= u64::MAX,
        ensures
            r == sum_tokens(self.entries@),
    {
        let n = self.entries.len();
        let mut acc: u64 = 0;
        let mut i: usize = 0;
        proof {
            assert(self.entries@.take(0) =~= Seq::<BuyerRecord>::empty());
        }
        while i < n
            invariant
                n == self.entries@.len(),
                i <= n,
                acc == sum_tokens(self.entries@.take(i as int)),
                sum_tokens(self.entries@) <= u64::MAX,
            decreases n - i,
        {
            proof {
                lemma_sum_tokens_take_succ(self.entries@, i as int);
                lemma_sum_tokens_take_le(self.entries@, i as int + 1);
            }
            let e = self.entries[i];
            acc = acc + e.tokens_allocated;
            acc = acc + e.curve_tokens_bought;
            i += 1;
        }
        proof {
            assert(self.entries@.take(n as int) =~= self.entries@);
        }
        acc
    }
}

// ─────────────────────────────────────────────────────────────────────────
// Supply conservation.
// ─────────────────────────────────────────────────────────────────────────

/// The launch never hands out more tokens than its total supply, in any
/// phase: presale finalizations allocate proportional floors whose sum
/// stays within the supply, and curve buys are rejected once they would
/// push the handed-out total past it.
pub proof fn lemma_supply_conservation(launch: Launch)
    requires
        launch.wf(),
    ensures
        sum_tokens(launch.entries@) <= launch.pool.total_supply,
{
}

/// A successful presale deposit into an existing entry keeps the launch
/// invariant.
proof fn lemma_buy_presale_preserves_wf(
    pre: Launch,
    post: Launch,
    buyer: u64,
    now: i64,
    sol_amount: u64,
    i: int,
)
    requires
        pre.wf(),
        now >= pre.clock,
        0 <= i < pre.entries@.len(),
        pre.entries@[i].buyer == buyer,
        presale_deposit_error(pre.pool, pre.entries@[i], now, sol_amount) is None,
        post.pool == presale_pool_after(pre.pool, pre.entries@[i], sol_amount),
        post.registry == pre.registry,
        post.clock == now,
        post.entries@ == pre.entries@.update(
            i,
            presale_record_after(pre.pool, pre.entries@[i], buyer, sol_amount),
        ),
    ensures
        post.wf(),
{
    let e = pre.entries@[i];
    let v = presale_record_after(pre.pool, e, buyer, sol_amount);
    lemma_sums_update(pre.entries@, i, v);
    // The deposit succeeded, so the window is open and nobody is
    // finalized yet.
    assert(now < pre.pool.end_time);
    assert(forall|k: int|
        0 <= k < pre.entries@.len() ==> !(#[trigger] pre.entries@[k]).finalized) by {
        assert forall|k: int|
            0 <= k < pre.entries@.len() implies !(#[trigger] pre.entries@[k]).finalized by {
            assert(pre.entry_ok(pre.entries@[k]));
        }
    }
    lemma_sum_finalized_deposits_zero(pre.entries@);
    lemma_sum_finalized_deposits_zero(post.entries@);
    assert(forall|k: int|
        0 <= k < post.entries@.len() ==> (#[trigger] post.entries@[k]).tokens_allocated == 0) by {
        assert forall|k: int|
            0 <= k < post.entries@.len() implies (#[trigger] post.entries@[k]).tokens_allocated
            == 0 by {
            if k != i {
                assert(pre.entry_ok(pre.entries@[k]));
            }
        }
    }
    lemma_sum_allocated_zero(post.entries@);
    assert(forall|k: int| 0 <= k < post.entries@.len() ==> post.entry_ok(#[trigger] post.entries@[k]))
        by {
        assert forall|k: int|
            0 <= k < post.entries@.len() implies post.entry_ok(#[trigger] post.entries@[k]) by {
            if k != i {
                assert(pre.entry_ok(pre.entries@[k]));
            }
        }
    }
}

/// A successful first presale deposit (a new ledger entry) keeps the
/// launch invariant.
proof fn lemma_buy_presale_preserves_wf_push(
    pre: Launch,
    post: Launch,
    buyer: u64,
    now: i64,
    sol_amount: u64,
)
    requires
        pre.wf(),
        now >= pre.clock,
        !pre.spec_has_entry(buyer),
        presale_deposit_error(pre.pool, fresh_record(pre.pool.mint, buyer), now, sol_amount)
            is None,
        post.pool == presale_pool_after(pre.pool, fresh_record(pre.pool.mint, buyer), sol_amount),
        post.registry == pre.registry,
        post.clock == now,
        post.entries@ == pre.entries@.push(
            presale_record_after(pre.pool, fresh_record(pre.pool.mint, buyer), buyer, sol_amount),
        ),
    ensures
        post.wf(),
{
    let e = fresh_record(pre.pool.mint, buyer);
    let v = presale_record_after(pre.pool, e, buyer, sol_amount);
    lemma_sums_push(pre.entries@, v);
    assert(now < pre.pool.end_time);
    assert(forall|k: int|
        0 <= k < pre.entries@.len() ==> !(#[trigger] pre.entries@[k]).finalized) by {
        assert forall|k: int|
            0 <= k < pre.entries@.len() implies !(#[trigger] pre.entries@[k]).finalized by {
            assert(pre.entry_ok(pre.entries@[k]));
        }
    }
    lemma_sum_finalized_deposits_zero(pre.entries@);
    lemma_sum_finalized_deposits_zero(post.entries@);
    assert(forall|k: int|
        0 <= k < post.entries@.len() ==> (#[trigger] post.entries@[k]).tokens_allocated == 0) by {
        assert forall|k: int|
            0 <= k < post.entries@.len() implies (#[trigger] post.entries@[k]).tokens_allocated
            == 0 by {
            if k < pre.entries@.len() {
                assert(pre.entry_ok(pre.entries@[k]));
            }
        }
    }
    lemma_sum_allocated_zero(post.entries@);
    assert(forall|k: int| 0 <= k < post.entries@.len() ==> post.entry_ok(#[trigger] post.entries@[k]))
        by {
        assert forall|k: int|
            0 <= k < post.entries@.len() implies post.entry_ok(#[trigger] post.entries@[k]) by {
            if k < pre.entries@.len() {
                assert(pre.entry_ok(pre.entries@[k]));
            }
        }
    }
    assert(forall|i: int, j: int|
        0 <= i < j < post.entries@.len() ==> (#[trigger] post.entries@[i]).buyer != (
        #[trigger] post.entries@[j]).buyer) by {
        assert forall|i: int, j: int|
            0 <= i < j < post.entries@.len() implies (#[trigger] post.entries@[i]).buyer != (
        #[trigger] post.entries@[j]).buyer by {
            if j == post.entries@.len() - 1 {
                assert(post.entries@[i] == pre.entries@[i]);
                assert(post.entries@[j].buyer == buyer);
            }
        }
    }
}

/// A successful finalization keeps the launch invariant; in particular
/// the new allocation keeps the ledger's allocations proportionally
/// bounded by the finalized deposits.
proof fn lemma_finalize_preserves_wf(pre: Launch, post: Launch, caller: u64, now: i64, i: int)
    requires
        pre.wf(),
        now >= pre.clock,
        0 <= i < pre.entries@.len(),
        finalize_error(pre.pool, pre.entries@[i], caller, now) is None,
        post.pool == finalize_pool_after(pre.pool, pre.entries@[i]),
        post.registry == pre.registry,
        post.clock == now,
        post.entries@ == pre.entries@.update(i, finalize_record_after(pre.pool, pre.entries@[i])),
    ensures
        post.wf(),
{
    let e = pre.entries@[i];
    let v = finalize_record_after(pre.pool, e);
    assert(pre.entry_ok(e));
    lemma_sums_update(pre.entries@, i, v);
    let alloc = finalize_tokens(pre.pool, e);
    let t = pre.pool.total_sol_collected as int;
    let supply = pre.pool.total_supply as int;
    assert(e.sol_deposited * supply >= 0) by (nonlinear_arith)
        requires
            supply >= 0;
    vstd::arithmetic::div_mod::lemma_div_pos_is_pos(e.sol_deposited * supply, t);
    assert(v.tokens_allocated == alloc);
    // alloc * t <= deposit * supply, since alloc is the floor quotient.
    lemma_fundamental_div_mod(e.sol_deposited * supply, t);
    lemma_mod_division_less_than_divisor(e.sol_deposited * supply, t);
    assert(alloc * t <= e.sol_deposited * supply);
    let a = sum_allocated(pre.entries@);
    let dfin = sum_finalized_deposits(pre.entries@);
    assert(sum_allocated(post.entries@) == a + alloc);
    assert(sum_finalized_deposits(post.entries@) == dfin + e.sol_deposited);
    assert((a + alloc) * t <= supply * (dfin + e.sol_deposited)) by (nonlinear_arith)
        requires
            a * t <= supply * dfin,
            alloc * t <= e.sol_deposited * supply;
    assert forall|k: int|
        0 <= k < post.entries@.len() implies post.entry_ok(#[trigger] post.entries@[k]) by {
        if k != i {
            assert(pre.entry_ok(pre.entries@[k]));
        }
    }
    // The handed-out total stays within the supply: in the presale phase
    // the tokens are exactly the allocations, and the proportional bound
    // above caps them by the supply.
    assert(forall|k: int|
        0 <= k < post.entries@.len() ==> (#[trigger] post.entries@[k]).curve_tokens_bought
            == 0) by {
        assert forall|k: int|
            0 <= k < post.entries@.len() implies (#[trigger] post.entries@[k]).curve_tokens_bought
            == 0 by {
            if k != i {
                assert(pre.entry_ok(pre.entries@[k]));
            }
        }
    }
    lemma_sum_tokens_eq_allocated(post.entries@);
    lemma_sum_finalized_le_deposits(post.entries@);
    assert(sum_deposits(post.entries@) == t);
    assert(supply * (dfin + e.sol_deposited) <= supply * t) by (nonlinear_arith)
        requires
            dfin + e.sol_deposited <= t,
            0 <= supply;
    assert(a + alloc <= supply) by (nonlinear_arith)
        requires
            (a + alloc) * t <= supply * t,
            t > 0;
}

/// A successful curve buy into an existing entry keeps the launch
/// invariant.
proof fn lemma_buy_curve_preserves_wf(
    pre: Launch,
    post: Launch,
    buyer: u64,
    sol_amount: u64,
    i: int,
)
    requires
        pre.wf(),
        0 <= i < pre.entries@.len(),
        pre.entries@[i].buyer == buyer,
        curve_buy_error(pre.pool, pre.entries@[i], sol_amount) is None,
        post.pool == curve_buy_pool_after(pre.pool, pre.entries@[i], sol_amount),
        post.registry == pre.registry,
        post.clock == pre.clock,
        post.entries@ == pre.entries@.update(
            i,
            curve_buy_record_after(pre.pool, pre.entries@[i], buyer, sol_amount),
        ),
    ensures
        post.wf(),
{
    let e = pre.entries@[i];
    let v = curve_buy_record_after(pre.pool, e, buyer, sol_amount);
    assert(pre.entry_ok(e));
    lemma_sums_update(pre.entries@, i, v);
    crate::curve::lemma_tokens_for_funds_nonneg(
        pre.pool.price_lamports as int,
        pre.pool.slope_scaled as int,
        pre.pool.tokens_sold_curve as int,
        sol_amount as int,
    );
    lemma_curve_buy_cost_pos(pre.pool, sol_amount);
    assert forall|k: int|
        0 <= k < post.entries@.len() implies post.entry_ok(#[trigger] post.entries@[k]) by {
        if k != i {
            assert(pre.entry_ok(pre.entries@[k]));
        }
    }
}

/// A successful first curve buy (a new ledger entry) keeps the launch
/// invariant.
proof fn lemma_buy_curve_preserves_wf_push(pre: Launch, post: Launch, buyer: u64, sol_amount: u64)
    requires
        pre.wf(),
        !pre.spec_has_entry(buyer),
        curve_buy_error(pre.pool, fresh_record(pre.pool.mint, buyer), sol_amount) is None,
        post.pool == curve_buy_pool_after(
            pre.pool,
            fresh_record(pre.pool.mint, buyer),
            sol_amount,
        ),
        post.registry == pre.registry,
        post.clock == pre.clock,
        post.entries@ == pre.entries@.push(
            curve_buy_record_after(
                pre.pool,
                fresh_record(pre.pool.mint, buyer),
                buyer,
                sol_amount,
            ),
        ),
    ensures
        post.wf(),
{
    let e = fresh_record(pre.pool.mint, buyer);
    let v = curve_buy_record_after(pre.pool, e, buyer, sol_amount);
    lemma_sums_push(pre.entries@, v);
    crate::curve::lemma_tokens_for_funds_nonneg(
        pre.pool.price_lamports as int,
        pre.pool.slope_scaled as int,
        pre.pool.tokens_sold_curve as int,
        sol_amount as int,
    );
    lemma_curve_buy_cost_pos(pre.pool, sol_amount);
    assert forall|k: int|
        0 <= k < post.entries@.len() implies post.entry_ok(#[trigger] post.entries@[k]) by {
        if k < pre.entries@.len() {
            assert(pre.entry_ok(pre.entries@[k]));
        }
    }
    assert forall|i: int, j: int|
        0 <= i < j < post.entries@.len() implies (#[trigger] post.entries@[i]).buyer != (
    #[trigger] post.entries@[j]).buyer by {
        if j == post.entries@.len() - 1 {
            assert(post.entries@[i] == pre.entries@[i]);
            assert(post.entries@[j].buyer == buyer);
        }
    }
}

/// A successful curve buy charges at least one funds unit.
proof fn lemma_curve_buy_cost_pos(pool: LaunchPool, sol_amount: u64)
    requires
        pool.price_lamports > 0,
        crate::ops::curve_buy_tokens(pool, sol_amount) >= 1,
    ensures
        crate::ops::curve_buy_cost(pool, sol_amount) >= 1,
{
    let tokens = crate::ops::curve_buy_tokens(pool, sol_amount);
    crate::curve::lemma_curve_cost_lower(
        pool.price_lamports as int,
        pool.slope_scaled as int,
        pool.tokens_sold_curve as int,
        tokens,
    );
    assert(pool.price_lamports * tokens >= 1) by (nonlinear_arith)
        requires
            pool.price_lamports >= 1,
            tokens >= 1;
}

/// A successful curve sell keeps the launch invariant.
proof fn lemma_sell_curve_preserves_wf(pre: Launch, post: Launch, token_amount: u64, i: int)
    requires
        pre.wf(),
        0 <= i < pre.entries@.len(),
        curve_sell_error(pre.pool, pre.entries@[i], token_amount) is None,
        post.pool == curve_sell_pool_after(pre.pool, token_amount),
        post.registry == pre.registry,
        post.clock == pre.clock,
        post.entries@ == pre.entries@.update(
            i,
            curve_sell_record_after(pre.entries@[i], token_amount),
        ),
    ensures
        post.wf(),
{
    let e = pre.entries@[i];
    let v = curve_sell_record_after(e, token_amount);
    assert(pre.entry_ok(e));
    lemma_sums_update(pre.entries@, i, v);
    assert forall|k: int|
        0 <= k < post.entries@.len() implies post.entry_ok(#[trigger] post.entries@[k]) by {
        if k != i {
            assert(pre.entry_ok(pre.entries@[k]));
        }
    }
}

} // verus!
