use anchor_vault::ledger::Ledger;
use anchor_vault::pda::{derive_canonical, derive_with_bump, state_tag_bytes, vault_tag_bytes};
use anchor_vault::rent::minimum_balance;
use anchor_vault::state::VaultError;
use anchor_vault::vault::{deposit, initialize, Deposit, Initialize, VaultProgram};

const RESERVE: u64 = 890_880;
const RECORD_RENT: u64 = 960_480;

fn addr(byte: u8) -> Vec<u8> {
    vec![byte; 32]
}

fn program() -> VaultProgram {
    VaultProgram::new(addr(7))
}

fn state_address_of(p: &VaultProgram, user: &Vec<u8>) -> (Vec<u8>, u8) {
    derive_canonical(p.id_bytes(), &state_tag_bytes(), user).expect("state derivation")
}

fn vault_address_of(p: &VaultProgram, state_addr: &Vec<u8>) -> (Vec<u8>, u8) {
    derive_canonical(p.id_bytes(), &vault_tag_bytes(), state_addr).expect("vault derivation")
}

fn funded_ledger(user: &Vec<u8>, amount: u64) -> Ledger {
    let mut l = Ledger::new();
    assert!(l.credit(user, amount));
    l
}

fn initialized(user: &Vec<u8>, funds: u64) -> (VaultProgram, Ledger, Vec<u8>, Vec<u8>) {
    let p = program();
    let mut l = funded_ledger(user, funds);
    let r = initialize(&p, &mut l, &Initialize { user: user.clone() });
    assert_eq!(r, Ok(()));
    let (state_addr, _) = state_address_of(&p, user);
    let (vault_addr, _) = vault_address_of(&p, &state_addr);
    (p, l, state_addr, vault_addr)
}

fn deposit_req(user: &Vec<u8>, state_addr: &Vec<u8>, vault_addr: &Vec<u8>) -> Deposit {
    Deposit {
        user: user.clone(),
        user_signed: true,
        vault_state: state_addr.clone(),
        vault: vault_addr.clone(),
    }
}

#[test]
fn reserve_matches_ledger_policy() {
    assert_eq!(minimum_balance(0), RESERVE);
    assert_eq!(minimum_balance(10), RECORD_RENT);
}

#[test]
fn canonical_derivation_is_reproducible() {
    let p = program();
    let user = addr(1);
    let (state_addr, state_bump) = state_address_of(&p, &user);
    assert_eq!(state_addr.len(), 32);
    assert_ne!(state_addr, user);
    assert_ne!(state_addr, addr(7));
    let again = derive_with_bump(p.id_bytes(), &state_tag_bytes(), &user, state_bump)
        .expect("cached bump rederives");
    assert_eq!(again, state_addr);
}

#[test]
fn different_tags_derive_different_addresses() {
    let p = program();
    let user = addr(1);
    let (state_addr, _) = state_address_of(&p, &user);
    let (vault_addr, _) = vault_address_of(&p, &state_addr);
    assert_ne!(state_addr, vault_addr);
}

#[test]
fn wrong_bump_does_not_rederive() {
    let p = program();
    let user = addr(1);
    let (state_addr, state_bump) = state_address_of(&p, &user);
    let other = derive_with_bump(p.id_bytes(), &state_tag_bytes(), &user, state_bump - 1);
    if let Some(a) = other {
        assert_ne!(a, state_addr);
    }
}

#[test]
fn initialize_funds_vault_to_exact_reserve() {
    let user = addr(1);
    let (_, l, state_addr, vault_addr) = initialized(&user, 10_000_000);
    assert_eq!(l.balance_of(&vault_addr), RESERVE);
    assert_eq!(l.balance_of(&state_addr), RECORD_RENT);
    assert_eq!(l.balance_of(&user), 10_000_000 - RECORD_RENT - RESERVE);
}

#[test]
fn initialize_caches_rederivable_bumps() {
    let user = addr(1);
    let (p, l, state_addr, vault_addr) = initialized(&user, 10_000_000);
    let rec = l.record_of(&state_addr).expect("record created");
    let state_again = derive_with_bump(p.id_bytes(), &state_tag_bytes(), &user, rec.state_bump)
        .expect("cached state bump valid");
    assert_eq!(state_again, state_addr);
    let vault_again = derive_with_bump(p.id_bytes(), &vault_tag_bytes(), &state_addr, rec.vault_bump)
        .expect("cached vault bump valid");
    assert_eq!(vault_again, vault_addr);
}

#[test]
fn initialize_twice_fails_and_changes_nothing() {
    let user = addr(1);
    let (p, mut l, state_addr, vault_addr) = initialized(&user, 10_000_000);
    let user_before = l.balance_of(&user);
    let record_before = l.record_of(&state_addr).expect("record created");
    let r = initialize(&p, &mut l, &Initialize { user: user.clone() });
    assert_eq!(r, Err(VaultError::AlreadyInitialized));
    assert_eq!(l.balance_of(&vault_addr), RESERVE);
    assert_eq!(l.balance_of(&user), user_before);
    assert_eq!(l.record_of(&state_addr).expect("record kept"), record_before);
}

#[test]
fn initialize_without_funds_creates_nothing() {
    let p = program();
    let user = addr(1);
    let mut l = funded_ledger(&user, 100);
    let r = initialize(&p, &mut l, &Initialize { user: user.clone() });
    assert_eq!(r, Err(VaultError::InsufficientFunds));
    let (state_addr, _) = state_address_of(&p, &user);
    let (vault_addr, _) = vault_address_of(&p, &state_addr);
    assert!(l.record_of(&state_addr).is_none());
    assert_eq!(l.balance_of(&vault_addr), 0);
    assert_eq!(l.balance_of(&user), 100);
}

#[test]
fn deposit_adds_exactly_the_amount() {
    let user = addr(1);
    let (p, mut l, state_addr, vault_addr) = initialized(&user, 10_000_000);
    let req = deposit_req(&user, &state_addr, &vault_addr);
    assert_eq!(deposit(&p, &mut l, &req, 1_000_000), Ok(()));
    assert_eq!(l.balance_of(&vault_addr), 1_890_880);
    assert_eq!(deposit(&p, &mut l, &req, 500), Ok(()));
    assert_eq!(l.balance_of(&vault_addr), 1_891_380);
}

#[test]
fn deposit_never_mutates_the_record() {
    let user = addr(1);
    let (p, mut l, state_addr, vault_addr) = initialized(&user, 10_000_000);
    let before = l.record_of(&state_addr).expect("record");
    let req = deposit_req(&user, &state_addr, &vault_addr);
    assert_eq!(deposit(&p, &mut l, &req, 1_000), Ok(()));
    assert_eq!(l.record_of(&state_addr).expect("record kept"), before);
}

#[test]
fn deposit_before_initialize_fails() {
    let p = program();
    let user = addr(1);
    let mut l = funded_ledger(&user, 10_000_000);
    let (state_addr, _) = state_address_of(&p, &user);
    let (vault_addr, _) = vault_address_of(&p, &state_addr);
    let req = deposit_req(&user, &state_addr, &vault_addr);
    assert_eq!(deposit(&p, &mut l, &req, 1_000), Err(VaultError::AccountNotFound));
    assert_eq!(l.balance_of(&user), 10_000_000);
    assert_eq!(l.balance_of(&vault_addr), 0);
}

#[test]
fn deposit_with_wrong_vault_address_fails() {
    let user = addr(1);
    let (p, mut l, state_addr, vault_addr) = initialized(&user, 10_000_000);
    let mut req = deposit_req(&user, &state_addr, &vault_addr);
    req.vault = addr(9);
    assert_eq!(deposit(&p, &mut l, &req, 1), Err(VaultError::DerivationMismatch));
    assert_eq!(deposit(&p, &mut l, &req, 5_000_000), Err(VaultError::DerivationMismatch));
    assert_eq!(l.balance_of(&vault_addr), RESERVE);
}

#[test]
fn deposit_with_foreign_state_address_fails() {
    let alice = addr(1);
    let bob = addr(2);
    let (p, mut l, alice_state, _alice_vault) = initialized(&alice, 10_000_000);
    assert!(l.credit(&bob, 10_000_000));
    assert_eq!(initialize(&p, &mut l, &Initialize { user: bob.clone() }), Ok(()));
    let (bob_state, _) = state_address_of(&p, &bob);
    let (bob_vault, _) = vault_address_of(&p, &bob_state);
    let req = Deposit {
        user: alice.clone(),
        user_signed: true,
        vault_state: bob_state,
        vault: bob_vault,
    };
    assert_eq!(deposit(&p, &mut l, &req, 1_000), Err(VaultError::DerivationMismatch));
    let _ = alice_state;
}

#[test]
fn unsigned_deposit_fails() {
    let user = addr(1);
    let (p, mut l, state_addr, vault_addr) = initialized(&user, 10_000_000);
    let mut req = deposit_req(&user, &state_addr, &vault_addr);
    req.user_signed = false;
    assert_eq!(deposit(&p, &mut l, &req, 1_000), Err(VaultError::Unauthorized));
    assert_eq!(l.balance_of(&vault_addr), RESERVE);
}

#[test]
fn underfunded_deposit_fails_and_changes_nothing() {
    let user = addr(1);
    let (p, mut l, state_addr, vault_addr) = initialized(&user, 2_000_000);
    let user_before = l.balance_of(&user);
    let req = deposit_req(&user, &state_addr, &vault_addr);
    assert_eq!(deposit(&p, &mut l, &req, user_before + 1), Err(VaultError::InsufficientFunds));
    assert_eq!(l.balance_of(&user), user_before);
    assert_eq!(l.balance_of(&vault_addr), RESERVE);
}

#[test]
fn users_vaults_are_independent() {
    let alice = addr(1);
    let bob = addr(2);
    let (p, mut l, alice_state, alice_vault) = initialized(&alice, 10_000_000);
    let req = deposit_req(&alice, &alice_state, &alice_vault);
    assert_eq!(deposit(&p, &mut l, &req, 1_000_000), Ok(()));
    assert_eq!(l.balance_of(&alice_vault), 1_890_880);

    assert!(l.credit(&bob, 10_000_000));
    assert_eq!(initialize(&p, &mut l, &Initialize { user: bob.clone() }), Ok(()));
    let (bob_state, _) = state_address_of(&p, &bob);
    let (bob_vault, _) = vault_address_of(&p, &bob_state);
    assert_ne!(bob_vault, alice_vault);
    assert_eq!(l.balance_of(&bob_vault), RESERVE);
    assert_eq!(l.balance_of(&alice_vault), 1_890_880);
}

#[test]
fn empty_ledger_holds_nothing() {
    let l = Ledger::new();
    assert_eq!(l.balance_of(&addr(1)), 0);
    assert!(l.record_of(&addr(1)).is_none());
    assert_eq!(l.total_balance(), 0);
}

#[test]
fn credit_refuses_overflowing_the_supply() {
    let mut l = Ledger::new();
    assert!(l.credit(&addr(1), u64::MAX));
    assert!(!l.credit(&addr(2), 1));
    assert_eq!(l.balance_of(&addr(2)), 0);
    assert_eq!(l.total_balance(), u64::MAX);
}
