//! A model of the host ledger's account state: balances and vault metadata
//! records by address, together with the atomic value-transfer primitive.

use vstd::prelude::*;

verus! {

use crate::state::{VaultError, VaultState};

/// One account: an address, its balance, and, where this system created
/// one, the vault metadata record stored at it.
struct LedgerEntry {
    addr: Vec<u8>,
    lamports: u64,
    record: Option<VaultState>,
}

/// The mathematical content of a [`Ledger`]: balances and records by
/// address.
#[verifier::ext_equal]
pub struct LedgerModel {
    pub balances: Map<Seq<u8>, u64>,
    pub records: Map<Seq<u8>, VaultState>,
}

impl LedgerModel {
    /// Balance of an address; an address with no account holds nothing.
    pub open spec fn balance_of(self, a: Seq<u8>) -> u64 {
        if self.balances.contains_key(a) {
            self.balances[a]
        } else {
            0u64
        }
    }

    /// The ledger with `a`'s balance set to `v`.
    pub open spec fn set_balance(self, a: Seq<u8>, v: u64) -> LedgerModel {
        LedgerModel { balances: self.balances.insert(a, v), records: self.records }
    }

    /// The record stored at an address, if any.
    pub open spec fn record_of(self, a: Seq<u8>) -> Option<VaultState> {
        if self.records.contains_key(a) {
            Some(self.records[a])
        } else {
            None
        }
    }

    /// The ledger with record `r` stored at `a`.
    pub open spec fn set_record(self, a: Seq<u8>, r: VaultState) -> LedgerModel {
        LedgerModel { balances: self.balances, records: self.records.insert(a, r) }
    }
}

/// The value-transfer primitive, specified at its interface: it atomically
/// moves `amount` from a signing payer to a receiver, fails with
/// `Unauthorized` where the payer did not sign, and with
/// `InsufficientFunds` where the payer's balance cannot cover the amount;
/// on failure nothing changes.
pub open spec fn spec_transfer(
    l: LedgerModel,
    from: Seq<u8>,
    to: Seq<u8>,
    amount: u64,
    from_signed: bool,
) -> (Result<(), VaultError>, LedgerModel) {
    if !from_signed {
        (Err(VaultError::Unauthorized), l)
    } else if l.balance_of(from) < amount {
        (Err(VaultError::InsufficientFunds), l)
    } else {
        let l1 = l.set_balance(from, (l.balance_of(from) - amount) as u64);
        let l2 = l1.set_balance(to, (l1.balance_of(to) + amount) as u64);
        (Ok(()), l2)
    }
}

spec fn sum_lamports(s: Seq<LedgerEntry>) -> int
    decreases s.len(),
{
    if s.len() == 0 {
        0
    } else {
        sum_lamports(s.drop_last()) + s.last().lamports
    }
}

spec fn distinct_addrs(s: Seq<LedgerEntry>) -> bool {
    forall|i: int, j: int| 0 <= i < j < s.len() ==> s[i].addr@ != s[j].addr@
}

spec fn entries_wf(s: Seq<LedgerEntry>) -> bool {
    &&& distinct_addrs(s)
    &&& forall|i: int| 0 <= i < s.len() ==> s[i].addr@.len() == 32
    &&& sum_lamports(s) <= u64::MAX
}

spec fn model_of(s: Seq<LedgerEntry>) -> LedgerModel
    decreases s.len(),
{
    if s.len() == 0 {
        LedgerModel { balances: Map::empty(), records: Map::empty() }
    } else {
        let rest = model_of(s.drop_last());
        let e = s.last();
        LedgerModel {
            balances: rest.balances.insert(e.addr@, e.lamports),
            records: match e.record {
                Some(r) => rest.records.insert(e.addr@, r),
                None => rest.records,
            },
        }
    }
}

proof fn lemma_sum_nonneg(s: Seq<LedgerEntry>)
    ensures
        sum_lamports(s) >= 0,
    decreases s.len(),
{
    if s.len() > 0 {
        lemma_sum_nonneg(s.drop_last());
    }
}

proof fn lemma_sum_entry_le(s: Seq<LedgerEntry>, i: int)
    requires
        0 <= i < s.len(),
    ensures
        s[i].lamports <= sum_lamports(s),
    decreases s.len(),
{
    if i == s.len() - 1 {
        lemma_sum_nonneg(s.drop_last());
    } else {
        lemma_sum_entry_le(s.drop_last(), i);
    }
}

proof fn lemma_sum_update(s: Seq<LedgerEntry>, i: int, e: LedgerEntry)
    requires
        0 <= i < s.len(),
    ensures
        sum_lamports(s.update(i, e)) == sum_lamports(s) - s[i].lamports + e.lamports,
    decreases s.len(),
{
    let t = s.update(i, e);
    if i == s.len() - 1 {
        assert(t.drop_last() =~= s.drop_last());
    } else {
        assert(t.drop_last() =~= s.drop_last().update(i, e));
        lemma_sum_update(s.drop_last(), i, e);
    }
}

proof fn lemma_sum_push(s: Seq<LedgerEntry>, e: LedgerEntry)
    ensures
        sum_lamports(s.push(e)) == sum_lamports(s) + e.lamports,
{
    assert(s.push(e).drop_last() =~= s);
}

proof fn lemma_sum_take_succ(s: Seq<LedgerEntry>, i: int)
    requires
        0 <= i < s.len(),
    ensures
        sum_lamports(s.take(i + 1)) == sum_lamports(s.take(i)) + s[i].lamports,
{
    assert(s.take(i + 1).drop_last() =~= s.take(i));
    assert(s.take(i + 1).last() == s[i]);
}

proof fn lemma_sum_take_le(s: Seq<LedgerEntry>, i: int)
    requires
        0 <= i <= s.len(),
    ensures
        sum_lamports(s.take(i)) <= sum_lamports(s),
    decreases s.len() - i,
{
    if i == s.len() {
        assert(s.take(i) =~= s);
    } else {
        lemma_sum_take_succ(s, i);
        lemma_sum_take_le(s, i + 1);
    }
}

proof fn lemma_model_absent(s: Seq<LedgerEntry>, a: Seq<u8>)
    requires
        forall|i: int| 0 <= i < s.len() ==> s[i].addr@ != a,
    ensures
        !model_of(s).balances.contains_key(a),
        !model_of(s).records.contains_key(a),
    decreases s.len(),
{
    if s.len() > 0 {
        lemma_model_absent(s.drop_last(), a);
    }
}

proof fn lemma_model_index(s: Seq<LedgerEntry>, i: int)
    requires
        distinct_addrs(s),
        0 <= i < s.len(),
    ensures
        model_of(s).balances.contains_key(s[i].addr@),
        model_of(s).balances[s[i].addr@] == s[i].lamports,
        match s[i].record {
            Some(r) => model_of(s).records.contains_key(s[i].addr@) && model_of(s).records[s[i].addr@]
                == r,
            None => !model_of(s).records.contains_key(s[i].addr@),
        },
    decreases s.len(),
{
    if i == s.len() - 1 {
        if s[i].record is None {
            lemma_model_absent(s.drop_last(), s[i].addr@);
        }
    } else {
        lemma_model_index(s.drop_last(), i);
    }
}

proof fn lemma_model_update_lamports(s: Seq<LedgerEntry>, i: int, e: LedgerEntry)
    requires
        distinct_addrs(s),
        0 <= i < s.len(),
        e.addr@ == s[i].addr@,
        e.record == s[i].record,
    ensures
        model_of(s.update(i, e)).balances == model_of(s).balances.insert(e.addr@, e.lamports),
        model_of(s.update(i, e)).records == model_of(s).records,
    decreases s.len(),
{
    let t = s.update(i, e);
    if i == s.len() - 1 {
        assert(t.drop_last() =~= s.drop_last());
        let rest = model_of(s.drop_last());
        assert(rest.balances.insert(e.addr@, s[i].lamports).insert(e.addr@, e.lamports)
            =~= rest.balances.insert(e.addr@, e.lamports));
    } else {
        assert(t.drop_last() =~= s.drop_last().update(i, e));
        lemma_model_update_lamports(s.drop_last(), i, e);
        let rest = model_of(s.drop_last());
        let last = s.last();
        assert(s[s.len() - 1].addr@ != s[i].addr@);
        assert(rest.balances.insert(e.addr@, e.lamports).insert(last.addr@, last.lamports)
            =~= rest.balances.insert(last.addr@, last.lamports).insert(e.addr@, e.lamports));
        match last.record {
            Some(r) => {
                assert(model_of(t).records =~= model_of(s).records);
            },
            None => {},
        }
    }
}

proof fn lemma_model_set_record(s: Seq<LedgerEntry>, i: int, e: LedgerEntry)
    requires
        distinct_addrs(s),
        0 <= i < s.len(),
        e.addr@ == s[i].addr@,
        e.lamports == s[i].lamports,
        s[i].record is None,
        e.record is Some,
    ensures
        model_of(s.update(i, e)).balances == model_of(s).balances,
        model_of(s.update(i, e)).records == model_of(s).records.insert(e.addr@, e.record->0),
    decreases s.len(),
{
    let t = s.update(i, e);
    if i == s.len() - 1 {
        assert(t.drop_last() =~= s.drop_last());
    } else {
        assert(t.drop_last() =~= s.drop_last().update(i, e));
        lemma_model_set_record(s.drop_last(), i, e);
        let rest = model_of(s.drop_last());
        let last = s.last();
        assert(s[s.len() - 1].addr@ != s[i].addr@);
        match last.record {
            Some(r) => {
                assert(rest.records.insert(e.addr@, e.record->0).insert(last.addr@, r)
                    =~= rest.records.insert(last.addr@, r).insert(e.addr@, e.record->0));
            },
            None => {},
        }
    }
}

proof fn lemma_model_push(s: Seq<LedgerEntry>, e: LedgerEntry)
    ensures
        model_of(s.push(e)).balances == model_of(s).balances.insert(e.addr@, e.lamports),
        e.record is None ==> model_of(s.push(e)).records == model_of(s).records,
{
    assert(s.push(e).drop_last() =~= s);
}

/// A fresh copy of an address's bytes.
fn clone_bytes(v: &Vec<u8>) -> (r: Vec<u8>)
    ensures
        r@ == v@,
{
    let n = v.len();
    let mut r: Vec<u8> = Vec::new();
    let mut i: usize = 0;
    while i < n
        invariant
            n == v@.len(),
            i <= n,
            r@ == v@.take(i as int),
        decreases n - i,
    {
        r.push(v[i]);
        proof {
            assert(r@ =~= v@.take(i as int + 1));
        }
        i += 1;
    }
    proof {
        assert(v@.take(n as int) =~= v@);
    }
    r
}

/// Byte-for-byte equality of two addresses.
pub(crate) fn bytes_eq(a: &Vec<u8>, b: &Vec<u8>) -> (r: bool)
    ensures
        r == (a@ == b@),
{
    if a.len() != b.len() {
        proof {
            assert(a@.len() != b@.len());
        }
        return false;
    }
    let n = a.len();
    let mut i: usize = 0;
    while i < n
        invariant
            n == a@.len(),
            a@.len() == b@.len(),
            i <= n,
            forall|j: int| 0 <= j < i ==> a@[j] == b@[j],
        decreases n - i,
    {
        if a[i] != b[i] {
            return false;
        }
        i += 1;
    }
    proof {
        assert(a@ =~= b@);
    }
    true
}

/// The host ledger's account state. Addresses are 32 bytes, each address
/// holds at most one account, and the total value in circulation fits the
/// balance type, so a transfer can never overflow its receiver.
pub struct Ledger {
    entries: Vec<LedgerEntry>,
}

impl View for Ledger {
    type V = LedgerModel;

    closed spec fn view(&self) -> LedgerModel {
        model_of(self.entries@)
    }
}

impl Ledger {
    /// All addresses are distinct and 32 bytes, and the total value in
    /// circulation fits the balance type.
    pub closed spec fn wf(&self) -> bool {
        entries_wf(self.entries@)
    }

    /// The total value held across all accounts.
    pub closed spec fn total(&self) -> int {
        sum_lamports(self.entries@)
    }

    /// An empty ledger.
    pub fn new() -> (l: Ledger)
        ensures
            l.wf(),
            l@.balances == Map::<Seq<u8>, u64>::empty(),
            l@.records == Map::<Seq<u8>, VaultState>::empty(),
            l.total() == 0,
    {
        Ledger { entries: Vec::new() }
    }

    fn find_index(&self, addr: &Vec<u8>) -> (r: Option<usize>)
        ensures
            match r {
                Some(i) => i < self.entries@.len() && self.entries@[i as int].addr@ == addr@,
                None => forall|i: int| 0 <= i < self.entries@.len() ==> self.entries@[i].addr@ != addr@,
            },
    {
        let n = self.entries.len();
        let mut i: usize = 0;
        while i < n
            invariant
                n == self.entries@.len(),
                i <= n,
                forall|j: int| 0 <= j < i ==> self.entries@[j].addr@ != addr@,
            decreases n - i,
        {
            if bytes_eq(&self.entries[i].addr, addr) {
                return Some(i);
            }
            i += 1;
        }
        None
    }

    /// Balance of an address.
    pub fn balance_of(&self, addr: &Vec<u8>) -> (r: u64)
        requires
            self.wf(),
        ensures
            r == self@.balance_of(addr@),
    {
        match self.find_index(addr) {
            Some(i) => {
                proof {
                    lemma_model_index(self.entries@, i as int);
                }
                self.entries[i].lamports
            },
            None => {
                proof {
                    lemma_model_absent(self.entries@, addr@);
                }
                0
            },
        }
    }

    /// The vault metadata record stored at an address, if any.
    pub fn record_of(&self, addr: &Vec<u8>) -> (r: Option<VaultState>)
        requires
            self.wf(),
        ensures
            r == self@.record_of(addr@),
    {
        match self.find_index(addr) {
            Some(i) => {
                proof {
                    lemma_model_index(self.entries@, i as int);
                }
                self.entries[i].record
            },
            None => {
                proof {
                    lemma_model_absent(self.entries@, addr@);
                }
                None
            },
        }
    }

    /// The total value held across all accounts.
    pub fn total_balance(&self) -> (r: u64)
        requires
            self.wf(),
        ensures
            r == self.total(),
    {
        let n = self.entries.len();
        let mut acc: u64 = 0;
        let mut i: usize = 0;
        while i < n
            invariant
                self.wf(),
                n == self.entries@.len(),
                i <= n,
                acc == sum_lamports(self.entries@.take(i as int)),
            decreases n - i,
        {
            proof {
                lemma_sum_take_succ(self.entries@, i as int);
                lemma_sum_take_le(self.entries@, i as int + 1);
                lemma_sum_nonneg(self.entries@.take(i as int));
            }
            acc = acc + self.entries[i].lamports;
            i += 1;
        }
        proof {
            assert(self.entries@.take(n as int) =~= self.entries@);
        }
        acc
    }

    /// Mint `amount` into `addr`'s account, as the host ledger does outside
    /// this system. Succeeds exactly where the new total still fits the
    /// balance type.
    pub fn credit(&mut self, addr: &Vec<u8>, amount: u64) -> (r: bool)
        requires
            old(self).wf(),
            addr@.len() == 32,
        ensures
            final(self).wf(),
            r == (old(self).total() + amount <= u64::MAX),
            r ==> final(self)@ == old(self)@.set_balance(
                addr@,
                (old(self)@.balance_of(addr@) + amount) as u64,
            ),
            r ==> final(self).total() == old(self).total() + amount,
            !r ==> final(self)@ == old(self)@ && final(self).total() == old(self).total(),
    {
        let t = self.total_balance();
        if amount <= u64::MAX - t {
            self.add_to(addr, amount);
            true
        } else {
            false
        }
    }

    /// Add `amount` to `addr`'s balance, creating the account if absent.
    fn add_to(&mut self, addr: &Vec<u8>, amount: u64)
        requires
            old(self).wf(),
            addr@.len() == 32,
            old(self).total() + amount <= u64::MAX,
        ensures
            final(self).wf(),
            final(self)@ == old(self)@.set_balance(addr@, (old(self)@.balance_of(addr@) + amount) as u64),
            final(self).total() == old(self).total() + amount,
    {
        let ghost s0 = self.entries@;
        match self.find_index(addr) {
            Some(i) => {
                proof {
                    lemma_model_index(s0, i as int);
                    lemma_sum_entry_le(s0, i as int);
                    lemma_sum_nonneg(s0);
                }
                let a = clone_bytes(&self.entries[i].addr);
                let rec = self.entries[i].record;
                let newv = self.entries[i].lamports + amount;
                let e = LedgerEntry { addr: a, lamports: newv, record: rec };
                proof {
                    lemma_sum_update(s0, i as int, e);
                    lemma_model_update_lamports(s0, i as int, e);
                }
                self.entries.set(i, e);
                proof {
                    let s1 = self.entries@;
                    assert(forall|k: int| 0 <= k < s1.len() ==> s1[k].addr@ == s0[k].addr@);
                    assert(distinct_addrs(s1));
                    assert(self@ =~= old(self)@.set_balance(
                        addr@,
                        (old(self)@.balance_of(addr@) + amount) as u64,
                    ));
                }
            },
            None => {
                proof {
                    lemma_model_absent(s0, addr@);
                }
                let e = LedgerEntry { addr: clone_bytes(addr), lamports: amount, record: None };
                proof {
                    lemma_sum_push(s0, e);
                    lemma_model_push(s0, e);
                }
                self.entries.push(e);
                proof {
                    let s1 = self.entries@;
                    assert(forall|k: int| 0 <= k < s0.len() ==> s1[k] == s0[k]);
                    assert(distinct_addrs(s1));
                    assert(self@ =~= old(self)@.set_balance(
                        addr@,
                        (old(self)@.balance_of(addr@) + amount) as u64,
                    ));
                }
            },
        }
    }

    /// Remove `amount` from `addr`'s balance.
    fn remove_from(&mut self, addr: &Vec<u8>, amount: u64)
        requires
            old(self).wf(),
            old(self)@.balance_of(addr@) >= amount,
            amount >= 1,
        ensures
            final(self).wf(),
            final(self)@ == old(self)@.set_balance(addr@, (old(self)@.balance_of(addr@) - amount) as u64),
            final(self).total() == old(self).total() - amount,
    {
        let ghost s0 = self.entries@;
        match self.find_index(addr) {
            Some(i) => {
                proof {
                    lemma_model_index(s0, i as int);
                }
                let a = clone_bytes(&self.entries[i].addr);
                let rec = self.entries[i].record;
                let newv = self.entries[i].lamports - amount;
                let e = LedgerEntry { addr: a, lamports: newv, record: rec };
                proof {
                    lemma_sum_update(s0, i as int, e);
                    lemma_model_update_lamports(s0, i as int, e);
                }
                self.entries.set(i, e);
                proof {
                    let s1 = self.entries@;
                    assert(forall|k: int| 0 <= k < s1.len() ==> s1[k].addr@ == s0[k].addr@);
                    assert(distinct_addrs(s1));
                    lemma_sum_nonneg(s0);
                    assert(self@ =~= old(self)@.set_balance(
                        addr@,
                        (old(self)@.balance_of(addr@) - amount) as u64,
                    ));
                }
            },
            None => {
                proof {
                    lemma_model_absent(s0, addr@);
                    assert(old(self)@.balance_of(addr@) == 0);
                    assert(false);
                }
            },
        }
    }

    /// The atomic value-transfer primitive: moves `amount` from the signing
    /// payer `from` to `to`; on failure nothing changes.
    pub fn transfer(&mut self, from: &Vec<u8>, to: &Vec<u8>, amount: u64, from_signed: bool) -> (r:
        Result<(), VaultError>)
        requires
            old(self).wf(),
            amount >= 1,
            to@.len() == 32,
        ensures
            final(self).wf(),
            r == spec_transfer(old(self)@, from@, to@, amount, from_signed).0,
            final(self)@ == spec_transfer(old(self)@, from@, to@, amount, from_signed).1,
            final(self).total() == old(self).total(),
    {
        if !from_signed {
            return Err(VaultError::Unauthorized);
        }
        let fb = self.balance_of(from);
        if fb < amount {
            return Err(VaultError::InsufficientFunds);
        }
        self.remove_from(from, amount);
        self.add_to(to, amount);
        Ok(())
    }

    /// Store a record at an existing account that holds none yet; balances
    /// are untouched.
    pub(crate) fn set_record(&mut self, addr: &Vec<u8>, rec: VaultState)
        requires
            old(self).wf(),
            old(self)@.balances.contains_key(addr@),
            !old(self)@.records.contains_key(addr@),
        ensures
            final(self).wf(),
            final(self)@ == old(self)@.set_record(addr@, rec),
            final(self).total() == old(self).total(),
    {
        let ghost s0 = self.entries@;
        match self.find_index(addr) {
            Some(i) => {
                proof {
                    lemma_model_index(s0, i as int);
                    if s0[i as int].record is Some {
                        assert(false);
                    }
                }
                let a = clone_bytes(&self.entries[i].addr);
                let lam = self.entries[i].lamports;
                let e = LedgerEntry { addr: a, lamports: lam, record: Some(rec) };
                proof {
                    lemma_sum_update(s0, i as int, e);
                    lemma_model_set_record(s0, i as int, e);
                }
                self.entries.set(i, e);
                proof {
                    let s1 = self.entries@;
                    assert(forall|k: int| 0 <= k < s1.len() ==> s1[k].addr@ == s0[k].addr@);
                    assert(distinct_addrs(s1));
                    assert(self@ =~= old(self)@.set_record(addr@, rec));
                }
            },
            None => {
                proof {
                    lemma_model_absent(s0, addr@);
                    assert(false);
                }
            },
        }
    }
}

} // verus!
