//! The account ledger: at most one account per address, changed in place.
use crate::words::{Address, Word};
use vstd::prelude::*;

verus! {

/// One storage cell of an account.
#[derive(Clone, Copy, Debug)]
pub struct StorageSlot {
    pub key: Word,
    pub value: Word,
}

/// What an account is, independent of how its storage cells are laid out.
pub struct AccountModel {
    pub nonce: u64,
    pub balance: Seq<u8>,
    pub code: Seq<u8>,
    pub storage: Map<Seq<u8>, Seq<u8>>,
}

/// The state kept for one address. Of two cells with the same key the later one counts.
#[derive(Debug)]
pub struct Account {
    pub nonce: u64,
    pub balance: Word,
    pub code: Vec<u8>,
    pub storage: Vec<StorageSlot>,
}

/// An address together with the account that lives there.
#[derive(Debug)]
pub struct Entry {
    pub address: Address,
    pub account: Account,
}

/// The mapping that a list of storage cells stands for.
pub open spec fn slots_map(slots: Seq<StorageSlot>) -> Map<Seq<u8>, Seq<u8>>
    decreases slots.len(),
{
    if slots.len() == 0 {
        Map::empty()
    } else {
        slots_map(slots.drop_last()).insert(slots.last().key@, slots.last().value@)
    }
}

/// The mapping that a list of entries stands for.
pub open spec fn entries_map(entries: Seq<Entry>) -> Map<Seq<u8>, AccountModel>
    decreases entries.len(),
{
    if entries.len() == 0 {
        Map::empty()
    } else {
        entries_map(entries.drop_last()).insert(entries.last().address@, entries.last().account@)
    }
}

/// No address stands twice in the list.
pub open spec fn distinct_addresses(entries: Seq<Entry>) -> bool {
    forall|i: int, j: int|
        0 <= i < j < entries.len() ==> (#[trigger] entries[i]).address@ != (
        #[trigger] entries[j]).address@
}

/// The account that an absent address reads as: nothing of anything.
pub open spec fn zero_account() -> AccountModel {
    AccountModel {
        nonce: 0,
        balance: Seq::new(32, |i: int| 0u8),
        code: Seq::empty(),
        storage: Map::empty(),
    }
}

/// Some cell of the list carries the key.
pub open spec fn key_occurs(slots: Seq<StorageSlot>, key: Seq<u8>) -> bool {
    exists|i: int| 0 <= i < slots.len() && (#[trigger] slots[i]).key@ == key
}

/// Some entry of the list carries the address.
pub open spec fn address_occurs(entries: Seq<Entry>, address: Seq<u8>) -> bool {
    exists|i: int| 0 <= i < entries.len() && (#[trigger] entries[i]).address@ == address
}

/// A key is mapped exactly when some cell carries it.
pub proof fn lemma_slots_dom(slots: Seq<StorageSlot>, key: Seq<u8>)
    ensures
        slots_map(slots).dom().contains(key) <==> key_occurs(slots, key),
    decreases slots.len(),
{
    if slots.len() > 0 {
        let front = slots.drop_last();
        lemma_slots_dom(front, key);
        if slots.last().key@ == key {
            assert(slots[slots.len() - 1].key@ == key);
        } else {
            if key_occurs(slots, key) {
                let i = choose|i: int| 0 <= i < slots.len() && (#[trigger] slots[i]).key@ == key;
                assert(front[i].key@ == key);
            }
            if key_occurs(front, key) {
                let i = choose|i: int| 0 <= i < front.len() && (#[trigger] front[i]).key@ == key;
                assert(slots[i].key@ == key);
            }
        }
    }
}

/// A key is mapped to the value of the last cell that carries it.
pub proof fn lemma_slots_value(slots: Seq<StorageSlot>, key: Seq<u8>, i: int)
    requires
        0 <= i < slots.len(),
        slots[i].key@ == key,
        forall|j: int| i < j < slots.len() ==> (#[trigger] slots[j]).key@ != key,
    ensures
        slots_map(slots).dom().contains(key),
        slots_map(slots)[key] == slots[i].value@,
    decreases slots.len(),
{
    let front = slots.drop_last();
    if i < slots.len() - 1 {
        assert(slots[slots.len() - 1].key@ != key);
        assert(front[i] == slots[i]);
        assert forall|j: int| i < j < front.len() implies (#[trigger] front[j]).key@ != key by {
            assert(front[j] == slots[j]);
        }
        lemma_slots_value(front, key, i);
    }
}

/// An address is mapped exactly when some entry carries it.
pub proof fn lemma_entries_dom(entries: Seq<Entry>, address: Seq<u8>)
    ensures
        entries_map(entries).dom().contains(address) <==> address_occurs(entries, address),
    decreases entries.len(),
{
    if entries.len() > 0 {
        let front = entries.drop_last();
        lemma_entries_dom(front, address);
        if entries.last().address@ == address {
            assert(entries[entries.len() - 1].address@ == address);
        } else {
            if address_occurs(entries, address) {
                let i = choose|i: int|
                    0 <= i < entries.len() && (#[trigger] entries[i]).address@ == address;
                assert(front[i].address@ == address);
            }
            if address_occurs(front, address) {
                let i = choose|i: int|
                    0 <= i < front.len() && (#[trigger] front[i]).address@ == address;
                assert(entries[i].address@ == address);
            }
        }
    }
}

/// An address is mapped to the account of the last entry that carries it.
pub proof fn lemma_entries_value(entries: Seq<Entry>, address: Seq<u8>, i: int)
    requires
        0 <= i < entries.len(),
        entries[i].address@ == address,
        forall|j: int| i < j < entries.len() ==> (#[trigger] entries[j]).address@ != address,
    ensures
        entries_map(entries).dom().contains(address),
        entries_map(entries)[address] == entries[i].account@,
    decreases entries.len(),
{
    let front = entries.drop_last();
    if i < entries.len() - 1 {
        assert(entries[entries.len() - 1].address@ != address);
        assert(front[i] == entries[i]);
        assert forall|j: int| i < j < front.len() implies (#[trigger] front[j]).address@
            != address by {
            assert(front[j] == entries[j]);
        }
        lemma_entries_value(front, address, i);
    }
}

impl View for Account {
    type V = AccountModel;

    open spec fn view(&self) -> AccountModel {
        AccountModel {
            nonce: self.nonce,
            balance: self.balance@,
            code: self.code@,
            storage: slots_map(self.storage@),
        }
    }
}

impl Account {
    /// A fresh account with the given nonce, balance and code, and no storage.
    pub fn new(nonce: u64, balance: Word, code: Vec<u8>) -> (r: Account)
        ensures
            r@ == (AccountModel {
                nonce: nonce,
                balance: balance@,
                code: code@,
                storage: Map::empty(),
            }),
    {
        Account { nonce, balance, code, storage: Vec::new() }
    }

    /// The account that an absent address reads as.
    pub fn empty() -> (r: Account)
        ensures
            r@ == zero_account(),
    {
        Account { nonce: 0, balance: Word::zero(), code: Vec::new(), storage: Vec::new() }
    }

    /// A copy of this account.
    pub fn duplicate(&self) -> (r: Account)
        ensures
            r@ == self@,
            r.storage@ == self.storage@,
    {
        let mut code: Vec<u8> = Vec::new();
        let mut i: usize = 0;
        while i < self.code.len()
            invariant
                i <= self.code.len(),
                code@ == self.code@.take(i as int),
            decreases self.code.len() - i,
        {
            code.push(self.code[i]);
            assert(self.code@.take(i + 1) =~= self.code@.take(i as int).push(self.code@[i as int]));
            i += 1;
        }
        assert(self.code@.take(i as int) =~= self.code@);
        let mut storage: Vec<StorageSlot> = Vec::new();
        let mut k: usize = 0;
        while k < self.storage.len()
            invariant
                k <= self.storage.len(),
                storage@ == self.storage@.take(k as int),
            decreases self.storage.len() - k,
        {
            storage.push(self.storage[k]);
            assert(self.storage@.take(k + 1) =~= self.storage@.take(k as int).push(
                self.storage@[k as int],
            ));
            k += 1;
        }
        assert(self.storage@.take(k as int) =~= self.storage@);
        Account { nonce: self.nonce, balance: self.balance, code, storage }
    }

    /// The value stored under `key`, or the zero word where nothing is stored.
    pub fn storage_at(&self, key: &Word) -> (r: Word)
        ensures
            r@ == if self@.storage.dom().contains(key@) {
                self@.storage[key@]
            } else {
                Seq::new(32, |i: int| 0u8)
            },
    {
        let mut i: usize = self.storage.len();
        while i > 0
            invariant
                i <= self.storage.len(),
                forall|j: int| i <= j < self.storage.len() ==> (#[trigger] self.storage@[j]).key@
                    != key@,
            decreases i,
        {
            i -= 1;
            if self.storage[i].key.same(key) {
                proof {
                    lemma_slots_value(self.storage@, key@, i as int);
                }
                return self.storage[i].value;
            }
        }
        proof {
            lemma_slots_dom(self.storage@, key@);
        }
        Word::zero()
    }

    /// Stores `value` under `key`, over whatever was stored there.
    pub fn store(&mut self, key: Word, value: Word)
        ensures
            final(self)@ == (AccountModel {
                storage: old(self)@.storage.insert(key@, value@),
                ..old(self)@
            }),
    {
        self.storage.push(StorageSlot { key, value });
        assert(self.storage@.drop_last() =~= old(self).storage@);
    }
}

/// The shared account state of one run.
pub struct Ledger {
    entries: Vec<Entry>,
}

impl View for Ledger {
    type V = Map<Seq<u8>, AccountModel>;

    closed spec fn view(&self) -> Map<Seq<u8>, AccountModel> {
        entries_map(self.entries@)
    }
}

impl Ledger {
    /// Holds when no address occurs twice.
    pub closed spec fn wf(&self) -> bool {
        distinct_addresses(self.entries@)
    }

    /// The number of accounts held.
    pub closed spec fn count(&self) -> nat {
        self.entries@.len()
    }

    /// An empty ledger.
    pub fn new() -> (r: Ledger)
        ensures
            r.wf(),
            r@ == Map::<Seq<u8>, AccountModel>::empty(),
            r.count() == 0,
    {
        Ledger { entries: Vec::new() }
    }

    /// A ledger of the listed entries.
    pub fn from_entries(entries: Vec<Entry>) -> (r: Ledger)
        requires
            distinct_addresses(entries@),
        ensures
            r.wf(),
            r@ == entries_map(entries@),
            r.count() == entries@.len(),
    {
        Ledger { entries }
    }

    /// The entries, in the order of first deployment.
    pub fn entries(&self) -> (r: &Vec<Entry>)
        ensures
            entries_map(r@) == self@,
            r@.len() == self.count(),
            self.wf() ==> distinct_addresses(r@),
    {
        &self.entries
    }

    fn position(&self, address: &Address) -> (r: Option<usize>)
        requires
            self.wf(),
        ensures
            match r {
                Some(i) => i < self.entries@.len() && self.entries@[i as int].address@ == address@
                    && self@.dom().contains(address@) && self@[address@]
                    == self.entries@[i as int].account@,
                None => !self@.dom().contains(address@) && forall|j: int|
                    0 <= j < self.entries@.len() ==> (#[trigger] self.entries@[j]).address@
                        != address@,
            },
    {
        proof {
            lemma_entries_dom(self.entries@, address@);
        }
        let mut i: usize = 0;
        while i < self.entries.len()
            invariant
                i <= self.entries.len(),
                distinct_addresses(self.entries@),
                forall|j: int| 0 <= j < i ==> (#[trigger] self.entries@[j]).address@ != address@,
            decreases self.entries.len() - i,
        {
            if self.entries[i].address.same(address) {
                proof {
                    lemma_entries_value(self.entries@, address@, i as int);
                }
                return Some(i);
            }
            i += 1;
        }
        None
    }

    /// Whether an account lives at `address`.
    pub fn contains(&self, address: &Address) -> (r: bool)
        requires
            self.wf(),
        ensures
            r == self@.dom().contains(address@),
    {
        self.position(address).is_some()
    }

    /// The number of accounts.
    pub fn len(&self) -> (r: usize)
        ensures
            r == self.count(),
    {
        self.entries.len()
    }

    /// The account at `address`, or the zero account where none lives there.
    pub fn get(&self, address: &Address) -> (r: Account)
        requires
            self.wf(),
        ensures
            r@ == if self@.dom().contains(address@) {
                self@[address@]
            } else {
                zero_account()
            },
    {
        match self.position(address) {
            Some(i) => self.entries[i].account.duplicate(),
            None => Account::empty(),
        }
    }

    /// Puts `account` at `address`, in place of whatever lived there. No other address changes.
    pub fn put(&mut self, address: Address, account: Account)
        requires
            old(self).wf(),
        ensures
            final(self).wf(),
            final(self)@ == old(self)@.insert(address@, account@),
            final(self).count() == if old(self)@.dom().contains(address@) {
                old(self).count()
            } else {
                old(self).count() + 1
            },
    {
        let ghost before = self.entries@;
        let ghost model = account@;
        match self.position(&address) {
            Some(i) => {
                self.entries[i] = Entry { address, account };
                proof {
                    let after = self.entries@;
                    let target = entries_map(before).insert(address@, model);
                    assert forall|j: int| 0 <= j < after.len() implies (#[trigger] after[j]).address@
                        == before[j].address@ by {}
                    assert forall|k: Seq<u8>| #[trigger]
                        entries_map(after).dom().contains(k) <==> target.dom().contains(k) by {
                        lemma_entries_dom(after, k);
                        lemma_entries_dom(before, k);
                        if address_occurs(before, k) {
                            let j = choose|j: int|
                                0 <= j < before.len() && (#[trigger] before[j]).address@ == k;
                            assert(after[j].address@ == k);
                        }
                        if address_occurs(after, k) {
                            let j = choose|j: int|
                                0 <= j < after.len() && (#[trigger] after[j]).address@ == k;
                            assert(before[j].address@ == k);
                        }
                    }
                    assert forall|k: Seq<u8>|
                        entries_map(after).dom().contains(k) implies #[trigger] entries_map(
                        after,
                    )[k] == target[k] by {
                        lemma_entries_dom(after, k);
                        let j = choose|j: int|
                            0 <= j < after.len() && (#[trigger] after[j]).address@ == k;
                        assert(before[j].address@ == k);
                        lemma_entries_value(before, k, j);
                        lemma_entries_value(after, k, j);
                    }
                    assert(entries_map(after) =~= target);
                }
            },
            None => {
                self.entries.push(Entry { address, account });
                assert(self.entries@.drop_last() =~= before);
            },
        }
    }

    /// Deploys code at `address`: the account there is replaced as a whole, with empty storage.
    pub fn deploy(&mut self, address: Address, code: Vec<u8>, balance: Word, nonce: u64)
        requires
            old(self).wf(),
        ensures
            final(self).wf(),
            final(self)@ == old(self)@.insert(
                address@,
                AccountModel { nonce: nonce, balance: balance@, code: code@, storage: Map::empty() },
            ),
            final(self)@[address@] == (AccountModel {
                nonce: nonce,
                balance: balance@,
                code: code@,
                storage: Map::empty(),
            }),
            forall|other: Seq<u8>|
                other != address@ ==> (#[trigger] final(self)@.dom().contains(other)) == old(self)@.dom().contains(other),
            forall|other: Seq<u8>|
                other != address@ && old(self)@.dom().contains(other) ==> #[trigger] final(self)@[other] == old(self)@[other],
    {
        self.put(address, Account::new(nonce, balance, code));
    }
}

} // verus!
