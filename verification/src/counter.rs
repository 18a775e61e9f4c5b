//! The root object of the service, and its rebuilding from the bytes of the
//! previous generation.
//!
//! The root has had two layouts. The previous one is two bytes: the counter
//! and a second number. The current one is those two bytes followed by the
//! storage prefix of the record store, written as a four-byte length and the
//! prefix itself. The two are told apart by their structure alone.
use vstd::prelude::*;
use crate::account::{Account, AccountView};
use crate::error::StoreError;
use crate::store::{ensured, lookup, AccountId, RecordStore, StoreMap};
use crate::wire::{get_u32, lemma_u32_value_of_bytes, put_bytes, put_u32, u32_bytes, u32_value};

verus! {

/// The root as the previous generation of the service persisted it.
#[derive(Clone, Copy, Debug, PartialEq, Eq)]
pub struct OldCounter {
    pub value: u8,
    pub new_value: u8,
}

impl Default for OldCounter {
    fn default() -> (r: OldCounter)
        ensures
            r.value == 0,
            r.new_value == 0,
    {
        OldCounter { value: 0, new_value: 0 }
    }
}

/// The prefixes under which the root keeps its collections in storage.
#[derive(Clone, Copy, Debug, PartialEq, Eq)]
pub enum StorageKey {
    AccountKey,
}

/// The bytes of a storage prefix: the number of its variant, one byte wide.
pub open spec fn storage_prefix(key: StorageKey) -> Seq<u8> {
    match key {
        StorageKey::AccountKey => seq![0u8],
    }
}

impl StorageKey {
    /// The prefix as bytes.
    pub fn into_storage_key(self) -> (r: Vec<u8>)
        ensures
            r@ == storage_prefix(self),
    {
        let mut r: Vec<u8> = Vec::new();
        match self {
            StorageKey::AccountKey => {
                r.push(0);
            },
        }
        assert(r@ =~= storage_prefix(self));
        r
    }
}

/// The two states of the persisted root.
#[derive(Clone, Copy, Debug, PartialEq, Eq)]
pub enum Layout {
    /// The bytes are in the previous generation's layout.
    Unmigrated,
    /// The bytes are in the current layout.
    Migrated,
}

/// The bytes of a root in the previous layout.
pub open spec fn previous_root(old: OldCounter) -> Seq<u8> {
    seq![old.value, old.new_value]
}

/// The bytes of a root in the current layout.
pub open spec fn current_root(value: u8, new_value: u8) -> Seq<u8> {
    let prefix = storage_prefix(StorageKey::AccountKey);
    seq![value, new_value] + u32_bytes(prefix.len() as u32) + prefix
}

/// The layout that `b` is in, if it is in one: two bytes are a previous
/// root; two bytes, a four-byte length and exactly that many bytes more are
/// a current one.
pub open spec fn layout_of(b: Seq<u8>) -> Option<Layout> {
    if b.len() == 2 {
        Some(Layout::Unmigrated)
    } else if b.len() >= 6 && b.len() == 6 + u32_value(b.subrange(2, 6)) {
        Some(Layout::Migrated)
    } else {
        None
    }
}

/// What a [`Counter`] holds.
pub struct CounterView {
    pub value: u8,
    pub new_value: u8,
    pub accounts: StoreMap,
}

/// The outcome of a migration from the persisted bytes `b`: a previous root
/// hands on its counter, the second number starts again at zero, and the
/// record store starts empty; anything else is refused.
pub open spec fn migration(b: Seq<u8>) -> Result<CounterView, StoreError> {
    match layout_of(b) {
        Some(Layout::Unmigrated) => Ok(
            CounterView { value: b[0], new_value: 0, accounts: Map::empty() },
        ),
        Some(Layout::Migrated) => Err(StoreError::UnexpectedLayout),
        None => Err(StoreError::CorruptState),
    }
}

/// A migration keeps the counter of the previous root and starts with an
/// empty record store.
pub proof fn lemma_migration_keeps_counter(old: OldCounter)
    ensures
        migration(previous_root(old)) == Ok::<CounterView, StoreError>(
            CounterView { value: old.value, new_value: 0, accounts: Map::empty() },
        ),
{
}

/// A migration is refused on the bytes of every current root, so it cannot
/// be done twice.
pub proof fn lemma_migration_runs_once(value: u8, new_value: u8)
    ensures
        layout_of(current_root(value, new_value)) == Some(Layout::Migrated),
        migration(current_root(value, new_value)) == Err::<CounterView, StoreError>(
            StoreError::UnexpectedLayout,
        ),
{
    let b = current_root(value, new_value);
    lemma_u32_value_of_bytes(1);
    assert(b.subrange(2, 6) =~= u32_bytes(1));
}

/// Tells the layout of the persisted root.
pub fn layout(raw: &[u8]) -> (r: Option<Layout>)
    ensures
        r == layout_of(raw@),
{
    let len = raw.len();
    if len == 2 {
        Some(Layout::Unmigrated)
    } else if len >= 6 && len - 6 == get_u32(raw, 2) as usize {
        Some(Layout::Migrated)
    } else {
        None
    }
}

/// The root object: a counter, a second number, and the record store.
#[derive(Clone, Debug)]
pub struct Counter {
    value: u8,
    new_value: u8,
    accounts: RecordStore,
}

impl View for Counter {
    type V = CounterView;

    closed spec fn view(&self) -> CounterView {
        CounterView { value: self.value, new_value: self.new_value, accounts: self.accounts@ }
    }
}

impl Counter {
    /// The root's invariant: its record store is well-formed.
    pub closed spec fn wf(&self) -> bool {
        self.accounts.wf()
    }

    /// A root with both numbers at zero and no records.
    pub fn new() -> (r: Counter)
        ensures
            r.wf(),
            r@ == (CounterView { value: 0, new_value: 0, accounts: Map::empty() }),
    {
        Counter { value: 0, new_value: 0, accounts: RecordStore::new() }
    }

    /// A root made of the given numbers and record store.
    pub fn from_parts(value: u8, new_value: u8, accounts: RecordStore) -> (r: Counter)
        requires
            accounts.wf(),
        ensures
            r.wf(),
            r@ == (CounterView { value, new_value, accounts: accounts@ }),
    {
        Counter { value, new_value, accounts }
    }

    /// The counter.
    pub fn get_num(&self) -> (r: u8)
        ensures
            r == self@.value,
    {
        self.value
    }

    /// The second number.
    pub fn get_new_num(&self) -> (r: u8)
        ensures
            r == self@.new_value,
    {
        self.new_value
    }

    /// The record store.
    pub fn accounts(&self) -> (r: &RecordStore)
        ensures
            r@ == self@.accounts,
            r.wf() == self.wf(),
    {
        &self.accounts
    }

    /// Overwrites the counter.
    pub fn set_num(&mut self, new_value: u8)
        ensures
            final(self).wf() == old(self).wf(),
            final(self)@ == (CounterView { value: new_value, ..old(self)@ }),
    {
        self.value = new_value;
    }

    /// Adds one to the counter. At the largest value the counter stays as it
    /// is and the call fails with the overflow error.
    pub fn increment(&mut self) -> (r: Result<(), StoreError>)
        ensures
            final(self).wf() == old(self).wf(),
            old(self)@.value < u8::MAX ==> r == Ok::<(), StoreError>(()) && final(self)@ == (
                CounterView { value: (old(self)@.value + 1) as u8, ..old(self)@ }
            ),
            old(self)@.value == u8::MAX ==> r == Err::<(), StoreError>(StoreError::Overflow)
                && final(self)@ == old(self)@,
    {
        if self.value == u8::MAX {
            Err(StoreError::Overflow)
        } else {
            self.value = self.value + 1;
            Ok(())
        }
    }

    /// Reads the record of `account_id` in the current shape.
    pub fn get_account(&self, account_id: AccountId) -> (r: Result<Account, StoreError>)
        requires
            self.wf(),
        ensures
            match r {
                Ok(account) => lookup(self@.accounts, account_id@) == Ok::<
                    AccountView,
                    StoreError,
                >(account@),
                Err(e) => lookup(self@.accounts, account_id@) == Err::<AccountView, StoreError>(e),
            },
    {
        self.accounts.get(account_id.as_str())
    }

    /// Makes sure that `caller` has a record; see [`RecordStore::ensure`].
    pub fn add_account(&mut self, caller: AccountId)
        requires
            old(self).wf(),
        ensures
            final(self).wf(),
            final(self)@ == (
                CounterView { accounts: ensured(old(self)@.accounts, caller@), ..old(self)@ }
            ),
    {
        self.accounts.ensure(caller);
    }

    /// Rebuilds the root from the bytes that are persisted for it. This
    /// succeeds exactly on a root in the previous layout.
    pub fn migrate(raw: &[u8]) -> (r: Result<Counter, StoreError>)
        ensures
            match r {
                Ok(counter) => counter.wf() && migration(raw@) == Ok::<CounterView, StoreError>(
                    counter@,
                ),
                Err(e) => migration(raw@) == Err::<CounterView, StoreError>(e),
            },
    {
        match layout(raw) {
            Some(Layout::Unmigrated) => Ok(
                Counter { value: raw[0], new_value: 0, accounts: RecordStore::new() },
            ),
            Some(Layout::Migrated) => Err(StoreError::UnexpectedLayout),
            None => Err(StoreError::CorruptState),
        }
    }

    /// The bytes that are persisted for the root, in the current layout.
    pub fn root(&self) -> (r: Vec<u8>)
        ensures
            r@ == current_root(self@.value, self@.new_value),
    {
        let mut r: Vec<u8> = Vec::new();
        r.push(self.value);
        r.push(self.new_value);
        let prefix = StorageKey::AccountKey.into_storage_key();
        put_u32(&mut r, prefix.len() as u32);
        put_bytes(&mut r, prefix.as_slice());
        assert(r@ =~= current_root(self@.value, self@.new_value));
        r
    }
}

impl OldCounter {
    /// The bytes that were persisted for a root of the previous generation.
    pub fn root(&self) -> (r: Vec<u8>)
        ensures
            r@ == previous_root(*self),
    {
        let mut r: Vec<u8> = Vec::new();
        r.push(self.value);
        r.push(self.new_value);
        assert(r@ =~= previous_root(*self));
        r
    }
}

} // verus!
