use vstd::prelude::*;

verus! {

/// The persisted metadata record for one user's vault: the two derivation
/// bumps found during initialization. The record is created once, the bumps
/// are write-once, and every later operation re-derives addresses from them
/// instead of searching again.
#[derive(Clone, Copy, PartialEq, Eq, Structural, Debug)]
pub struct VaultState {
    /// Bump under which the vault account's address is derived from this
    /// record's address.
    pub vault_bump: u8,
    /// Bump under which this record's address is derived from the owning
    /// user's identity.
    pub state_bump: u8,
}

/// The classified failures of the vault flows.
#[derive(Clone, Copy, PartialEq, Eq, Structural, Debug)]
pub enum VaultError {
    /// A vault metadata record already stands at the derived state address.
    AlreadyInitialized,
    /// A caller-supplied address does not match canonical re-derivation, or
    /// no bump yields a valid address for the seeds at hand.
    DerivationMismatch,
    /// The signing user's balance cannot cover the required transfer.
    InsufficientFunds,
    /// The transfer's paying account did not sign the transaction.
    Unauthorized,
    /// A deposit was attempted before any initialization.
    AccountNotFound,
}

} // verus!
