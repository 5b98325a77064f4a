//! A minimal custodial vault over a host ledger.
//!
//! A user's funds are held in a vault account whose address is derived
//! deterministically from the custodian program's identity and the user's
//! identity, rather than generated randomly and stored. A companion metadata
//! record caches the derivation constants ("bumps") found during creation,
//! so later operations re-derive and verify the same addresses without
//! repeating the search.

pub mod laws;
pub mod ledger;
pub mod pda;
pub mod rent;
pub mod state;
pub mod vault;
