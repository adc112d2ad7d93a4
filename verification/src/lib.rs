//! An atomic batch-transfer engine over a multi-token balance ledger.
//!
//! A batch moves several (token id, amount) legs from one account to another
//! as a single indivisible operation: per-token spending allowances are
//! enforced, extension hooks may veto the transfer, and a recipient-acceptance
//! check runs before funds are credited. Every batch either fully commits or
//! leaves every balance and allowance record exactly as it was.

use vstd::prelude::*;

pub mod allowances;
pub mod balances;
pub mod engine;
pub mod events;
pub mod hooks;
pub mod laws;
pub mod store;

verus! {

/// An account identifier. The distinguished value `ZERO_ACCOUNT` denotes the
/// invalid/burn-only address and is never a valid transfer destination.
pub type AccountId = u128;

/// Names one fungible/semi-fungible token class inside the ledger.
pub type TokenId = u128;

/// A non-negative token amount.
pub type Balance = u128;

/// The reserved invalid/burn-only account.
pub const ZERO_ACCOUNT: u128 = 0;

/// The reserved "unlimited" allowance sentinel: an approval holding this
/// value grants any amount and is never decremented.
pub const UNLIMITED_ALLOWANCE: u128 = u128::MAX;

/// Every way a batch transfer can fail. Any of these aborts the whole batch;
/// no balance or allowance mutation from the failing call stays visible.
#[derive(Clone, Copy, Debug, PartialEq, Eq, Structural)]
pub enum Psp37Error {
    /// The batch named the zero account as its destination.
    TransferToZeroAddress,
    /// The validation pass found a leg whose amount exceeds the allowance
    /// granted by the owner to the operator.
    NotAllowed,
    /// An allowance record underflowed during the debit pass.
    InsufficientAllowance,
    /// A balance record underflowed during the debit pass.
    InsufficientBalance,
    /// The before- or after-transfer hook vetoed the batch.
    HookRejected,
    /// The recipient-acceptance check vetoed the batch.
    RecipientRejected,
}

} // verus!
