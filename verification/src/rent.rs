//! The minimum-reserve model: the balance an account of a given size must
//! hold to avoid reclamation by the host ledger.

use vstd::prelude::*;

verus! {

/// The minimum balance an account of `data_len` data bytes must hold under
/// the ledger's standard policy: a per-byte-year price of 3480 over the
/// 128-byte account overhead plus the data, kept for the two-year exemption
/// horizon.
pub open spec fn spec_minimum_balance(data_len: int) -> int {
    (128 + data_len) * 3480 * 2
}

/// Relies on `Rent::default().minimum_balance` of solana-rent (through
/// anchor-lang): the standard policy prices 3480 lamports per byte-year
/// over the 128-byte overhead plus the data and doubles it for the
/// exemption threshold of two years; for the admitted sizes the widening
/// through the threshold multiplication is exact.
#[verifier::external_body]
fn ledger_minimum_balance(data_len: usize) -> (r: u64)
    requires
        data_len <= 1000000,
    ensures
        r == spec_minimum_balance(data_len as int),
{
    anchor_lang::prelude::Rent::default().minimum_balance(data_len)
}

/// Minimum reserve for an account of `data_len` data bytes, recomputed from
/// the host ledger's policy on every call rather than cached.
pub fn minimum_balance(data_len: usize) -> (r: u64)
    requires
        data_len <= 1000000,
    ensures
        r == spec_minimum_balance(data_len as int),
{
    ledger_minimum_balance(data_len)
}

} // verus!
