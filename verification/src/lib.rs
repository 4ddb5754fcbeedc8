//! A deterministic token-launch pricing and accounting engine.
//!
//! A launch starts as a fixed-price presale, becomes an algorithmic
//! bonding-curve market, and finally graduates to open trading.  Until
//! graduation a price floor guards every sell and every transfer to a
//! registered market: no participant may exit below their own entry price.
//!
//! The crate is organised leaves-first:
//! - [`errors`]: the error taxonomy shared by every operation.
//! - [`curve`]: pure bonding-curve math (spot price, buy cost, inverse).
//! - [`state`]: the launch pool, per-buyer ledger entries, market registry.
//! - [`ops`]: the launch operations (create, buy, finalize, sell, ...).
//! - [`hook`]: the price-floor guard applied at the transfer boundary.
//! - [`engine`]: a whole-launch store tying pool and ledger together, with
//!   the launch-wide conservation invariant.
//!
//! Custody of funds and tokens, account addressing, signing, and the clock
//! are external collaborators: operations take the current time and resolved
//! records as plain arguments and return what the collaborators must move.

pub mod curve;
pub mod engine;
pub mod errors;
pub mod hook;
pub mod ops;
pub mod state;
