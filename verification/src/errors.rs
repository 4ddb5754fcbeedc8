//! Error taxonomy for the launch engine.
//!
//! Every operation is all-or-nothing: an error means the operation rejected
//! its input and mutated nothing.  The variants are grouped so that callers
//! can tell "retry later" (temporal) from "not allowed ever" (validation,
//! authorization, economic invariant) from "aborted" (arithmetic).

use vstd::prelude::*;

verus! {

/// Error codes for the launch protocol.
#[derive(Clone, Copy, Debug, PartialEq, Eq, Structural)]
pub enum SamesError {
    /// Presale window has not started yet.
    PresaleNotStarted,
    /// Presale window has already ended.
    PresaleEnded,
    /// Presale window is still active; cannot finalize yet.
    PresaleStillActive,
    /// The launch (or this participant) has already been finalized.
    AlreadyFinalized,
    /// The launch has not been finalized yet.
    NotFinalized,
    /// Deposit amount must be greater than zero.
    ZeroDeposit,
    /// Arithmetic overflow.
    MathOverflow,
    /// Insufficient token balance or funds for this operation.
    InsufficientBalance,
    /// Sell amount must be greater than zero.
    ZeroSellAmount,
    /// Sell price is below entry price; the sell is blocked.
    SellBelowEntry,
    /// No buyer record found; cannot verify entry price.
    NoBuyerRecord,
    /// Transfer hook: sell price below recorded entry price.
    HookSellBelowEntry,
    /// Transfer hook: unable to derive a price at the boundary.
    HookPriceDerivationFailed,
    /// Launch is not in the bonding-curve phase.
    NotBondingCurve,
    /// Graduation threshold has not been met.
    NotReadyToGraduate,
    /// Only the launch creator may call this operation.
    UnauthorizedCreator,
    /// Invalid mint for this launch pool.
    InvalidMint,
    /// Invalid market account (registry is full or entry rejected).
    InvalidMarket,
    /// Supply must be greater than zero.
    ZeroSupply,
    /// Price per token must be greater than zero.
    ZeroPrice,
    /// Token name too long.
    NameTooLong,
    /// Token symbol too long.
    SymbolTooLong,
    /// Presale window length outside the valid range.
    InvalidPresaleWindow,
}

} // verus!
