//! Address derivation: mapping the program's identity, a seed pair, and a
//! bump byte to a deterministic address, plus the downward bump search used
//! only at creation.

use vstd::prelude::*;

verus! {

/// The seed tag under which a user's vault metadata record is derived.
pub open spec fn state_tag() -> Seq<u8> {
    seq![115u8, 116u8, 97u8, 116u8, 101u8]
}

/// The seed tag under which a vault account is derived from its record.
pub open spec fn vault_tag() -> Seq<u8> {
    seq![118u8, 97u8, 117u8, 108u8, 116u8]
}

/// The bytes of [`state_tag`].
pub fn state_tag_bytes() -> (r: Vec<u8>)
    ensures
        r@ == state_tag(),
{
    let mut v: Vec<u8> = Vec::new();
    v.push(115);
    v.push(116);
    v.push(97);
    v.push(116);
    v.push(101);
    proof {
        assert(v@ =~= state_tag());
    }
    v
}

/// The bytes of [`vault_tag`].
pub fn vault_tag_bytes() -> (r: Vec<u8>)
    ensures
        r@ == vault_tag(),
{
    let mut v: Vec<u8> = Vec::new();
    v.push(118);
    v.push(97);
    v.push(117);
    v.push(108);
    v.push(116);
    proof {
        assert(v@ =~= vault_tag());
    }
    v
}

/// The address the host ledger derives for a program identity, a pair of
/// seeds and one bump byte, or `None` where that candidate is invalid (the
/// derived point lies on the curve, or a seed is over the ledger's length
/// limits). The derivation is a pure function of its arguments.
pub uninterp spec fn pda_of(program: Seq<u8>, tag: Seq<u8>, key: Seq<u8>, bump: u8) -> Option<
    Seq<u8>,
>;

/// Relies on `Pubkey::create_program_address` of solana-pubkey (through
/// anchor-lang): it derives the address for one given bump with no search;
/// the result is a function of the arguments alone, named by [`pda_of`],
/// an address of 32 bytes. Its error (candidate on the curve, or a seed
/// over the length limits) is returned as `None`.
#[verifier::external_body]
fn create_pda(program: &Vec<u8>, tag: &Vec<u8>, key: &Vec<u8>, bump: u8) -> (r: Option<Vec<u8>>)
    requires
        program@.len() == 32,
    ensures
        match pda_of(program@, tag@, key@, bump) {
            Some(a) => r is Some && r->0@ == a && a.len() == 32,
            None => r is None,
        },
{
    let program_id = anchor_lang::prelude::Pubkey::try_from(program.as_slice()).unwrap();
    let bump_seed = [bump];
    match anchor_lang::prelude::Pubkey::create_program_address(
        &[tag.as_slice(), key.as_slice(), &bump_seed],
        &program_id,
    ) {
        Ok(pk) => Some(pk.to_bytes().to_vec()),
        Err(_) => None,
    }
}

/// Relies on `Pubkey::try_find_program_address` of solana-pubkey (through
/// anchor-lang): it tries bump bytes from 255 downward through 1 and returns
/// the first that derives a valid address, together with that address; it
/// returns `None` when no bump from 255 down to 1 does.
#[verifier::external_body]
fn try_find_pda(program: &Vec<u8>, tag: &Vec<u8>, key: &Vec<u8>) -> (r: Option<(Vec<u8>, u8)>)
    requires
        program@.len() == 32,
    ensures
        match r {
            Some(p) => {
                &&& 1 <= p.1
                &&& pda_of(program@, tag@, key@, p.1) == Some(p.0@)
                &&& p.0@.len() == 32
                &&& forall|c: u8| p.1 < c ==> pda_of(program@, tag@, key@, c) is None
            },
            None => forall|c: u8| 1 <= c ==> pda_of(program@, tag@, key@, c) is None,
        },
{
    let program_id = anchor_lang::prelude::Pubkey::try_from(program.as_slice()).unwrap();
    let found = anchor_lang::prelude::Pubkey::try_find_program_address(
        &[tag.as_slice(), key.as_slice()],
        &program_id,
    );
    found.map(|p: (anchor_lang::prelude::Pubkey, u8)| (p.0.to_bytes().to_vec(), p.1))
}

/// Whether `b` is the bump the canonical downward search finds for these
/// seeds: the largest bump (at least 1) that derives a valid address.
pub open spec fn is_canonical_bump(program: Seq<u8>, tag: Seq<u8>, key: Seq<u8>, b: u8) -> bool {
    &&& 1 <= b
    &&& pda_of(program, tag, key, b) is Some
    &&& forall|c: u8| b < c ==> pda_of(program, tag, key, c) is None
}

/// The bump the canonical search finds, or `None` where no bump from 255
/// down to 1 derives a valid address.
pub open spec fn canonical_bump(program: Seq<u8>, tag: Seq<u8>, key: Seq<u8>) -> Option<u8> {
    if exists|b: u8| is_canonical_bump(program, tag, key, b) {
        Some(choose|b: u8| is_canonical_bump(program, tag, key, b))
    } else {
        None
    }
}

/// The address the canonical search pairs with its bump.
pub open spec fn canonical_address(program: Seq<u8>, tag: Seq<u8>, key: Seq<u8>) -> Seq<u8>
    recommends
        canonical_bump(program, tag, key) is Some,
{
    pda_of(program, tag, key, canonical_bump(program, tag, key)->0)->0
}

/// At most one bump is canonical for given seeds.
pub proof fn lemma_canonical_bump_unique(program: Seq<u8>, tag: Seq<u8>, key: Seq<u8>, b: u8)
    requires
        is_canonical_bump(program, tag, key, b),
    ensures
        canonical_bump(program, tag, key) == Some(b),
{
    assert(exists|c: u8| is_canonical_bump(program, tag, key, c));
    let c = choose|c: u8| is_canonical_bump(program, tag, key, c);
    if c < b {
        assert(pda_of(program, tag, key, b) is None);
        assert(false);
    } else if b < c {
        assert(pda_of(program, tag, key, c) is None);
        assert(false);
    }
}

/// The canonical search: candidate bumps are tried from 255 downward and the
/// first valid address is returned with its bump. Performed only during
/// initialization; later operations use [`derive_with_bump`] on the cached
/// bump instead.
pub fn derive_canonical(program: &Vec<u8>, tag: &Vec<u8>, key: &Vec<u8>) -> (r: Option<
    (Vec<u8>, u8),
>)
    requires
        program@.len() == 32,
    ensures
        match r {
            Some(p) => {
                &&& canonical_bump(program@, tag@, key@) == Some(p.1)
                &&& pda_of(program@, tag@, key@, p.1) == Some(p.0@)
                &&& p.0@ == canonical_address(program@, tag@, key@)
                &&& p.0@.len() == 32
            },
            None => canonical_bump(program@, tag@, key@) is None,
        },
{
    let r = try_find_pda(program, tag, key);
    match r {
        Some(p) => {
            proof {
                lemma_canonical_bump_unique(program@, tag@, key@, p.1);
            }
            Some(p)
        },
        None => {
            None
        },
    }
}

/// Re-derivation from a cached bump: the same computation as the canonical
/// search for that single bump, with no search. For the bump the search
/// found, it returns the same address the search returned.
pub fn derive_with_bump(program: &Vec<u8>, tag: &Vec<u8>, key: &Vec<u8>, bump: u8) -> (r: Option<
    Vec<u8>,
>)
    requires
        program@.len() == 32,
    ensures
        match pda_of(program@, tag@, key@, bump) {
            Some(a) => r is Some && r->0@ == a && a.len() == 32,
            None => r is None,
        },
{
    create_pda(program, tag, key, bump)
}

} // verus!
