//! The laws of the vault: what holds of every initialization and every
//! deposit, proved over the flows' specifications.

use vstd::prelude::*;

verus! {

use crate::ledger::LedgerModel;
use crate::pda::{pda_of, state_tag, vault_tag};
use crate::rent::spec_minimum_balance;
use crate::state::VaultError;
use crate::vault::{
    spec_deposit, spec_initialize, spec_state_address, spec_vault_address, DepositView,
};

/// After a successful initialization, the cached bumps re-derive exactly
/// the addresses used during creation: the record stored at the canonical
/// state address holds a `state_bump` that derives that very state address
/// from the user, and a `vault_bump` that derives the canonical vault
/// address from the state address.
pub proof fn lemma_initialize_rederives(l: LedgerModel, program: Seq<u8>, user: Seq<u8>)
    requires
        spec_initialize(l, program, user).0 is Ok,
    ensures
        ({
            let l1 = spec_initialize(l, program, user).1;
            let sa = spec_state_address(program, user);
            &&& l1.record_of(sa) matches Some(rec)
            &&& pda_of(program, state_tag(), user, l1.record_of(sa)->0.state_bump) == Some(sa)
            &&& pda_of(program, vault_tag(), sa, l1.record_of(sa)->0.vault_bump) == Some(
                spec_vault_address(program, user),
            )
        }),
{
}

/// After initialization of a user whose vault account held nothing, the
/// vault's balance is exactly the minimum reserve for an empty account —
/// not more, not less. The derived addresses are assumed distinct from the
/// user's own address, as the ledger's off-curve derivation guarantees.
pub proof fn lemma_initialize_funds_reserve(l: LedgerModel, program: Seq<u8>, user: Seq<u8>)
    requires
        spec_initialize(l, program, user).0 is Ok,
        l.balance_of(spec_vault_address(program, user)) == 0,
        spec_vault_address(program, user) != user,
        spec_vault_address(program, user) != spec_state_address(program, user),
    ensures
        spec_initialize(l, program, user).1.balance_of(spec_vault_address(program, user))
            == spec_minimum_balance(0),
{
}

/// A successful deposit raises the vault's balance by exactly the amount,
/// leaves every record untouched, and leaves the balance of every address
/// other than the payer and the vault unchanged.
pub proof fn lemma_deposit_adds_amount(
    l: LedgerModel,
    program: Seq<u8>,
    req: DepositView,
    amount: u64,
)
    requires
        spec_deposit(l, program, req, amount).0 is Ok,
        req.vault != req.user,
        l.balance_of(req.vault) + amount <= u64::MAX,
    ensures
        spec_deposit(l, program, req, amount).1.balance_of(req.vault) == l.balance_of(req.vault)
            + amount,
        spec_deposit(l, program, req, amount).1.records == l.records,
        forall|a: Seq<u8>|
            a != req.user && a != req.vault ==> spec_deposit(l, program, req, amount).1.balance_of(
                a,
            ) == l.balance_of(a),
{
}

/// The sum of a sequence of deposit amounts.
pub open spec fn sum_of(amts: Seq<u64>) -> int
    decreases amts.len(),
{
    if amts.len() == 0 {
        0
    } else {
        amts[0] + sum_of(amts.drop_first())
    }
}

/// The ledger after depositing each amount of `amts` in turn under one
/// request.
pub open spec fn apply_deposits(
    l: LedgerModel,
    program: Seq<u8>,
    req: DepositView,
    amts: Seq<u64>,
) -> LedgerModel
    decreases amts.len(),
{
    if amts.len() == 0 {
        l
    } else {
        apply_deposits(spec_deposit(l, program, req, amts[0]).1, program, req, amts.drop_first())
    }
}

/// Whether every deposit of `amts`, applied in turn, succeeds.
pub open spec fn deposits_all_ok(
    l: LedgerModel,
    program: Seq<u8>,
    req: DepositView,
    amts: Seq<u64>,
) -> bool
    decreases amts.len(),
{
    amts.len() == 0 || {
        &&& spec_deposit(l, program, req, amts[0]).0 is Ok
        &&& deposits_all_ok(
            spec_deposit(l, program, req, amts[0]).1,
            program,
            req,
            amts.drop_first(),
        )
    }
}

proof fn lemma_sum_of_nonneg(amts: Seq<u64>)
    ensures
        sum_of(amts) >= 0,
    decreases amts.len(),
{
    if amts.len() > 0 {
        lemma_sum_of_nonneg(amts.drop_first());
    }
}

/// Repeating the deposit with amounts a1..an, all of which succeed, yields
/// a vault balance raised by exactly the sum of the amounts.
pub proof fn lemma_deposits_add_up(
    l: LedgerModel,
    program: Seq<u8>,
    req: DepositView,
    amts: Seq<u64>,
)
    requires
        deposits_all_ok(l, program, req, amts),
        req.vault != req.user,
        l.balance_of(req.vault) + sum_of(amts) <= u64::MAX,
    ensures
        apply_deposits(l, program, req, amts).balance_of(req.vault) == l.balance_of(req.vault)
            + sum_of(amts),
    decreases amts.len(),
{
    if amts.len() > 0 {
        lemma_sum_of_nonneg(amts.drop_first());
        lemma_deposit_adds_amount(l, program, req, amts[0]);
        lemma_deposits_add_up(
            spec_deposit(l, program, req, amts[0]).1,
            program,
            req,
            amts.drop_first(),
        );
    }
}

/// A second initialization for the same user fails with
/// `AlreadyInitialized` and changes nothing: in particular the vault's
/// balance is untouched by the failed call.
pub proof fn lemma_initialize_twice(l: LedgerModel, program: Seq<u8>, user: Seq<u8>)
    requires
        spec_initialize(l, program, user).0 is Ok,
    ensures
        ({
            let l1 = spec_initialize(l, program, user).1;
            &&& spec_initialize(l1, program, user).0 == Err::<(), VaultError>(
                VaultError::AlreadyInitialized,
            )
            &&& spec_initialize(l1, program, user).1 == l1
        }),
{
}

/// A deposit against a state address holding no record — in particular any
/// deposit before initialization — fails with `AccountNotFound` and
/// changes nothing, whatever the amount.
pub proof fn lemma_deposit_before_initialize(
    l: LedgerModel,
    program: Seq<u8>,
    req: DepositView,
    amount: u64,
)
    requires
        l.record_of(req.vault_state) is None,
    ensures
        spec_deposit(l, program, req, amount).0 == Err::<(), VaultError>(
            VaultError::AccountNotFound,
        ),
        spec_deposit(l, program, req, amount).1 == l,
{
}

/// A deposit whose caller-supplied state or vault address does not match
/// canonical re-derivation from the cached bumps fails with
/// `DerivationMismatch` and changes nothing, regardless of the amount.
pub proof fn lemma_deposit_mismatch(
    l: LedgerModel,
    program: Seq<u8>,
    req: DepositView,
    amount: u64,
)
    requires
        l.record_of(req.vault_state) matches Some(rec) && (pda_of(
            program,
            state_tag(),
            req.user,
            rec.state_bump,
        ) != Some(req.vault_state) || pda_of(program, vault_tag(), req.vault_state, rec.vault_bump)
            != Some(req.vault)),
    ensures
        spec_deposit(l, program, req, amount).0 == Err::<(), VaultError>(
            VaultError::DerivationMismatch,
        ),
        spec_deposit(l, program, req, amount).1 == l,
{
}

} // verus!
