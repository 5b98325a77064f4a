//! The two entry points of the custodian: initialization of a user's vault
//! and later deposits into it.

use vstd::prelude::*;

verus! {

use crate::ledger::{Ledger, LedgerModel, spec_transfer, bytes_eq};
use crate::pda::{
    canonical_address, canonical_bump, derive_canonical, derive_with_bump, pda_of, state_tag,
    state_tag_bytes, vault_tag, vault_tag_bytes,
};
use crate::rent::{minimum_balance, spec_minimum_balance};
use crate::state::{VaultError, VaultState};

/// Size in bytes of the data a vault metadata record occupies: an 8-byte
/// record-type tag followed by the two bump bytes.
pub const RECORD_SPACE: usize = 10;

/// The custodian program: its ledger identity, from which every address
/// this system acts on is derived.
pub struct VaultProgram {
    program_id: Vec<u8>,
}

impl VaultProgram {
    /// The program's 32-byte identity.
    pub closed spec fn id(&self) -> Seq<u8> {
        self.program_id@
    }

    /// The identity is a well-sized address.
    pub open spec fn wf(&self) -> bool {
        self.id().len() == 32
    }

    pub fn new(program_id: Vec<u8>) -> (p: VaultProgram)
        requires
            program_id@.len() == 32,
        ensures
            p.id() == program_id@,
            p.wf(),
    {
        VaultProgram { program_id }
    }

    /// The identity's bytes.
    pub fn id_bytes(&self) -> (r: &Vec<u8>)
        ensures
            r@ == self.id(),
    {
        &self.program_id
    }
}

/// The bump the canonical search finds for a user's state record, if any.
pub open spec fn spec_state_bump(program: Seq<u8>, user: Seq<u8>) -> Option<u8> {
    canonical_bump(program, state_tag(), user)
}

/// The canonical address of a user's state record.
pub open spec fn spec_state_address(program: Seq<u8>, user: Seq<u8>) -> Seq<u8> {
    canonical_address(program, state_tag(), user)
}

/// The bump the canonical search finds for a user's vault account, if any;
/// the vault is derived from the state record's address.
pub open spec fn spec_vault_bump(program: Seq<u8>, user: Seq<u8>) -> Option<u8> {
    canonical_bump(program, vault_tag(), spec_state_address(program, user))
}

/// The canonical address of a user's vault account.
pub open spec fn spec_vault_address(program: Seq<u8>, user: Seq<u8>) -> Seq<u8> {
    canonical_address(program, vault_tag(), spec_state_address(program, user))
}

/// What initialization does: derive the state address canonically and fail
/// with `AlreadyInitialized` where a record already stands there; derive
/// the vault address canonically from the state address; charge the signing
/// user the record's reserve and the vault's reserve, failing with
/// `InsufficientFunds` where the balance cannot cover both, with nothing
/// changed; otherwise create the record, cache both bumps in it, and fund
/// the vault to exactly the minimum reserve. Where no bump at all yields a
/// valid address for either derivation — which the downward search never
/// meets in practice — the flow fails with `DerivationMismatch`.
pub open spec fn spec_initialize(l: LedgerModel, program: Seq<u8>, user: Seq<u8>) -> (Result<
    (),
    VaultError,
>, LedgerModel) {
    if spec_state_bump(program, user) is None {
        (Err(VaultError::DerivationMismatch), l)
    } else {
        let state_addr = spec_state_address(program, user);
        if l.records.contains_key(state_addr) {
            (Err(VaultError::AlreadyInitialized), l)
        } else if spec_vault_bump(program, user) is None {
            (Err(VaultError::DerivationMismatch), l)
        } else {
            let vault_addr = spec_vault_address(program, user);
            let record_rent = spec_minimum_balance(RECORD_SPACE as int) as u64;
            let reserve = spec_minimum_balance(0) as u64;
            if l.balance_of(user) < record_rent + reserve {
                (Err(VaultError::InsufficientFunds), l)
            } else {
                let l1 = spec_transfer(l, user, state_addr, record_rent, true).1;
                let l2 = l1.set_record(
                    state_addr,
                    VaultState {
                        vault_bump: spec_vault_bump(program, user)->0,
                        state_bump: spec_state_bump(program, user)->0,
                    },
                );
                let l3 = spec_transfer(l2, user, vault_addr, reserve, true).1;
                (Ok(()), l3)
            }
        }
    }
}

/// The initialization request: the signing user, who pays for the record
/// and the vault's initial reserve.
pub struct Initialize {
    pub user: Vec<u8>,
}

impl Initialize {
    /// Create and fund this user's vault; see [`spec_initialize`] for the
    /// exact outcome on every input.
    pub fn initialize(&self, program: &VaultProgram, ledger: &mut Ledger) -> (r: Result<
        (),
        VaultError,
    >)
        requires
            program.wf(),
            old(ledger).wf(),
        ensures
            final(ledger).wf(),
            r == spec_initialize(old(ledger)@, program.id(), self.user@).0,
            final(ledger)@ == spec_initialize(old(ledger)@, program.id(), self.user@).1,
    {
        let tag_state = state_tag_bytes();
        let found_state = derive_canonical(program.id_bytes(), &tag_state, &self.user);
        match found_state {
            None => Err(VaultError::DerivationMismatch),
            Some((state_addr, state_bump)) => {
                match ledger.record_of(&state_addr) {
                    Some(_) => Err(VaultError::AlreadyInitialized),
                    None => {
                        let tag_vault = vault_tag_bytes();
                        let found_vault = derive_canonical(
                            program.id_bytes(),
                            &tag_vault,
                            &state_addr,
                        );
                        match found_vault {
                            None => Err(VaultError::DerivationMismatch),
                            Some((vault_addr, vault_bump)) => {
                                let record_rent = minimum_balance(RECORD_SPACE);
                                let reserve = minimum_balance(0);
                                let bal = ledger.balance_of(&self.user);
                                if bal < record_rent + reserve {
                                    Err(VaultError::InsufficientFunds)
                                } else {
                                    let _ = ledger.transfer(
                                        &self.user,
                                        &state_addr,
                                        record_rent,
                                        true,
                                    );
                                    ledger.set_record(
                                        &state_addr,
                                        VaultState { vault_bump, state_bump },
                                    );
                                    let _ = ledger.transfer(&self.user, &vault_addr, reserve, true);
                                    Ok(())
                                }
                            },
                        }
                    },
                }
            },
        }
    }
}

/// What a deposit does: load the record at the caller-supplied state
/// address, failing with `AccountNotFound` where none is there; re-derive
/// both addresses from the cached bumps and fail with `DerivationMismatch`
/// where either caller-supplied address differs; then move the amount from
/// the signing user to the vault through the transfer primitive, which
/// fails with `Unauthorized` where the user did not sign and with
/// `InsufficientFunds` where the balance cannot cover the amount. On any
/// failure nothing changes; the record is never mutated.
pub open spec fn spec_deposit(
    l: LedgerModel,
    program: Seq<u8>,
    req: DepositView,
    amount: u64,
) -> (Result<(), VaultError>, LedgerModel) {
    match l.record_of(req.vault_state) {
        None => (Err(VaultError::AccountNotFound), l),
        Some(rec) => {
            if pda_of(program, state_tag(), req.user, rec.state_bump) != Some(req.vault_state) {
                (Err(VaultError::DerivationMismatch), l)
            } else if pda_of(program, vault_tag(), req.vault_state, rec.vault_bump) != Some(
                req.vault,
            ) {
                (Err(VaultError::DerivationMismatch), l)
            } else {
                spec_transfer(l, req.user, req.vault, amount, req.user_signed)
            }
        },
    }
}

/// The deposit request: the signing user, whether the enclosing transaction
/// carries that user's signature, and the two caller-supplied addresses to
/// be validated against canonical re-derivation.
pub struct Deposit {
    /// The record's owner and the transfer's payer.
    pub user: Vec<u8>,
    /// Whether the enclosing transaction carries `user`'s signature.
    pub user_signed: bool,
    /// Caller-supplied address of the vault metadata record.
    pub vault_state: Vec<u8>,
    /// Caller-supplied address of the vault account.
    pub vault: Vec<u8>,
}

/// The mathematical content of a [`Deposit`] request.
pub struct DepositView {
    pub user: Seq<u8>,
    pub user_signed: bool,
    pub vault_state: Seq<u8>,
    pub vault: Seq<u8>,
}

impl View for Deposit {
    type V = DepositView;

    open spec fn view(&self) -> DepositView {
        DepositView {
            user: self.user@,
            user_signed: self.user_signed,
            vault_state: self.vault_state@,
            vault: self.vault@,
        }
    }
}

impl Deposit {
    /// Top up this user's vault by `amount`; see [`spec_deposit`] for the
    /// exact outcome on every input.
    pub fn deposit(&self, program: &VaultProgram, ledger: &mut Ledger, amount: u64) -> (r: Result<
        (),
        VaultError,
    >)
        requires
            program.wf(),
            old(ledger).wf(),
            amount >= 1,
        ensures
            final(ledger).wf(),
            r == spec_deposit(old(ledger)@, program.id(), self@, amount).0,
            final(ledger)@ == spec_deposit(old(ledger)@, program.id(), self@, amount).1,
    {
        match ledger.record_of(&self.vault_state) {
            None => Err(VaultError::AccountNotFound),
            Some(rec) => {
                let tag_state = state_tag_bytes();
                let expect_state = derive_with_bump(
                    program.id_bytes(),
                    &tag_state,
                    &self.user,
                    rec.state_bump,
                );
                let state_ok = match &expect_state {
                    Some(a) => bytes_eq(a, &self.vault_state),
                    None => false,
                };
                if !state_ok {
                    return Err(VaultError::DerivationMismatch);
                }
                let tag_vault = vault_tag_bytes();
                let expect_vault = derive_with_bump(
                    program.id_bytes(),
                    &tag_vault,
                    &self.vault_state,
                    rec.vault_bump,
                );
                let vault_ok = match &expect_vault {
                    Some(a) => bytes_eq(a, &self.vault),
                    None => false,
                };
                if !vault_ok {
                    return Err(VaultError::DerivationMismatch);
                }
                ledger.transfer(&self.user, &self.vault, amount, self.user_signed)
            },
        }
    }
}

/// Entry point: create and fund the requesting user's vault.
pub fn initialize(program: &VaultProgram, ledger: &mut Ledger, ctx: &Initialize) -> (r: Result<
    (),
    VaultError,
>)
    requires
        program.wf(),
        old(ledger).wf(),
    ensures
        final(ledger).wf(),
        r == spec_initialize(old(ledger)@, program.id(), ctx.user@).0,
        final(ledger)@ == spec_initialize(old(ledger)@, program.id(), ctx.user@).1,
{
    ctx.initialize(program, ledger)
}

/// Entry point: top up the requesting user's vault by `amt`.
pub fn deposit(program: &VaultProgram, ledger: &mut Ledger, ctx: &Deposit, amt: u64) -> (r: Result<
    (),
    VaultError,
>)
    requires
        program.wf(),
        old(ledger).wf(),
        amt >= 1,
    ensures
        final(ledger).wf(),
        r == spec_deposit(old(ledger)@, program.id(), ctx@, amt).0,
        final(ledger)@ == spec_deposit(old(ledger)@, program.id(), ctx@, amt).1,
{
    ctx.deposit(program, ledger, amt)
}

} // verus!
