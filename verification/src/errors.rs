use vstd::prelude::*;

verus! {

/// The reasons an escrow operation is rejected. Every handler detects its
/// error before any state change, so a rejected operation has no effect.
#[derive(Clone, Copy, Debug, PartialEq, Eq)]
pub enum EscrowError {
    /// A zero or overflowing quantity.
    InvalidAmount,
    /// A balance below the requested transfer.
    InsufficientFunds,
    /// A supplied account does not match the deterministically derived one.
    AddressMismatch,
    /// Supplied asset identifiers disagree with the stored record.
    AssetMismatch,
    /// The signer is not the account the operation requires.
    Unauthorized,
    /// No open trade at the derived address.
    RecordNotFound,
    /// A record already holds an open trade at the derived address.
    DuplicateTrade,
}

} // verus!
