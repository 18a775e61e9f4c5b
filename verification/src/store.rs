//! The record store: a map from account names to stored records.
//!
//! The store keeps every record as the bytes it was written with and never
//! touches them on a read. A read decodes the bytes and brings the record to
//! the current shape; a write stores the current shape.
use vstd::prelude::*;
use vstd::utf8::encode_utf8;
use crate::account::{blank_account, normalize, wrap, Account, AccountView, VersionedAccount};
use crate::codec::{decoding, encoding, lemma_decoding_of_encoding};
use crate::error::StoreError;
use crate::wire::text_fits;

verus! {

/// The name of an account: the key under which its record is stored.
pub type AccountId = String;

/// What the store holds: for each name at most one record, as bytes.
pub type StoreMap = Map<Seq<char>, Seq<u8>>;

/// The bytes that a record created by [`RecordStore::ensure`] is stored with.
pub open spec fn blank_record() -> Seq<u8> {
    encoding(wrap(blank_account()))
}

/// What a read of `key` returns from a store that holds `m`.
pub open spec fn lookup(m: StoreMap, key: Seq<char>) -> Result<AccountView, StoreError> {
    if !m.contains_key(key) {
        Err(StoreError::NotFound)
    } else {
        match decoding(m[key]) {
            Some(v) => Ok(normalize(v)),
            None => Err(StoreError::CorruptRecord),
        }
    }
}

/// What a store that held `m` holds once `key` has been ensured.
pub open spec fn ensured(m: StoreMap, key: Seq<char>) -> StoreMap {
    if m.contains_key(key) {
        m
    } else {
        m.insert(key, blank_record())
    }
}

/// What a store that held `m` holds once `account` has been written under `key`.
pub open spec fn written(m: StoreMap, key: Seq<char>, account: AccountView) -> StoreMap {
    m.insert(key, encoding(wrap(account)))
}

/// Ensuring a key a second time changes nothing, and the key is then present.
pub proof fn lemma_ensure_idempotent(m: StoreMap, key: Seq<char>)
    ensures
        ensured(m, key).contains_key(key),
        ensured(ensured(m, key), key) == ensured(m, key),
{
}

/// Ensuring a key adds one entry where there was none and none where there
/// was one; however often the same key is ensured in an empty store, the
/// store then holds exactly one entry.
pub proof fn lemma_ensure_counts(m: StoreMap, key: Seq<char>)
    requires
        m.dom().finite(),
    ensures
        ensured(m, key).dom().finite(),
        ensured(m, key).len() == if m.contains_key(key) {
            m.len()
        } else {
            m.len() + 1
        },
        ensured(ensured(StoreMap::empty(), key), key).len() == 1,
        ensured(ensured(StoreMap::empty(), key), key).dom() == set![key],
{
    let once = ensured(StoreMap::empty(), key);
    assert(once.dom() =~= set![key]);
    assert(ensured(once, key) == once);
}

/// A record that was just created reads as the blank account.
pub proof fn lemma_lookup_ensured(m: StoreMap, key: Seq<char>)
    requires
        !m.contains_key(key),
    ensures
        lookup(ensured(m, key), key) == Ok::<AccountView, StoreError>(blank_account()),
        forall|other: Seq<char>| other != key ==> lookup(ensured(m, key), other) == lookup(m, other),
{
    assert(encode_utf8(Seq::<char>::empty()) =~= Seq::<u8>::empty()) by {
        reveal_with_fuel(encode_utf8, 1);
    }
    lemma_decoding_of_encoding(wrap(blank_account()));
}

/// A record that was written reads as it was written, and no other key reads
/// differently than before.
pub proof fn lemma_lookup_written(m: StoreMap, key: Seq<char>, account: AccountView)
    requires
        text_fits(account.bio),
    ensures
        lookup(written(m, key, account), key) == Ok::<AccountView, StoreError>(account),
        forall|other: Seq<char>|
            other != key ==> lookup(written(m, key, account), other) == lookup(m, other),
{
    lemma_decoding_of_encoding(wrap(account));
}

/// One stored record with its key.
#[derive(Clone, Debug)]
struct Entry {
    key: String,
    value: Vec<u8>,
}

/// The map that a list of entries stands for; of two entries with one key the
/// later would count.
spec fn map_of(s: Seq<Entry>) -> StoreMap
    decreases s.len(),
{
    if s.len() == 0 {
        Map::empty()
    } else {
        map_of(s.drop_last()).insert(s.last().key@, s.last().value@)
    }
}

/// No key occurs twice.
spec fn distinct_keys(s: Seq<Entry>) -> bool {
    forall|i: int, j: int| 0 <= i < j < s.len() ==> s[i].key@ != s[j].key@
}

/// With distinct keys the map holds exactly the listed entries.
proof fn lemma_map_of(s: Seq<Entry>)
    requires
        distinct_keys(s),
    ensures
        map_of(s).dom().finite(),
        map_of(s).len() == s.len(),
        forall|i: int|
            0 <= i < s.len() ==> map_of(s).contains_key(#[trigger] s[i].key@) && map_of(s)[s[i].key@]
                == s[i].value@,
        forall|k: Seq<char>| #[trigger]
            map_of(s).contains_key(k) ==> exists|i: int| 0 <= i < s.len() && s[i].key@ == k,
    decreases s.len(),
{
    if s.len() > 0 {
        let front = s.drop_last();
        let last = s.last();
        lemma_map_of(front);
        assert(!map_of(front).contains_key(last.key@)) by {
            if map_of(front).contains_key(last.key@) {
                let i = choose|i: int| 0 <= i < front.len() && front[i].key@ == last.key@;
                assert(s[i].key@ == s[s.len() - 1].key@);
            }
        }
        assert forall|i: int| 0 <= i < s.len() implies map_of(s).contains_key(
            #[trigger] s[i].key@,
        ) && map_of(s)[s[i].key@] == s[i].value@ by {
            if i < front.len() {
                assert(front[i].key@ == s[i].key@);
            }
        }
        assert forall|k: Seq<char>| #[trigger] map_of(s).contains_key(k) implies exists|i: int|
            0 <= i < s.len() && s[i].key@ == k by {
            if k == last.key@ {
                assert(s[s.len() - 1].key@ == k);
            } else {
                let i = choose|i: int| 0 <= i < front.len() && front[i].key@ == k;
                assert(s[i].key@ == k);
            }
        }
    }
}

/// Replacing the value of one entry replaces the value of its key.
proof fn lemma_map_of_update(s: Seq<Entry>, i: int, e: Entry)
    requires
        distinct_keys(s),
        0 <= i < s.len(),
        e.key@ == s[i].key@,
    ensures
        distinct_keys(s.update(i, e)),
        map_of(s.update(i, e)) == map_of(s).insert(e.key@, e.value@),
{
    let t = s.update(i, e);
    assert(distinct_keys(t)) by {
        assert forall|a: int, b: int| 0 <= a < b < t.len() implies t[a].key@ != t[b].key@ by {
            assert(t[a].key@ == s[a].key@);
            assert(t[b].key@ == s[b].key@);
        }
    }
    lemma_map_of(s);
    lemma_map_of(t);
    let want = map_of(s).insert(e.key@, e.value@);
    assert forall|k: Seq<char>| map_of(t).contains_key(k) <==> want.contains_key(k) by {
        if map_of(t).contains_key(k) {
            let j = choose|j: int| 0 <= j < t.len() && t[j].key@ == k;
            assert(s[j].key@ == k);
        }
        if want.contains_key(k) && k != e.key@ {
            let j = choose|j: int| 0 <= j < s.len() && s[j].key@ == k;
            assert(t[j].key@ == k);
        }
        if k == e.key@ {
            assert(t[i].key@ == k);
        }
    }
    assert forall|k: Seq<char>| map_of(t).contains_key(k) implies map_of(t)[k] == want[k] by {
        let j = choose|j: int| 0 <= j < t.len() && t[j].key@ == k;
        assert(map_of(t)[t[j].key@] == t[j].value@);
        if j != i {
            assert(s[j].key@ == k);
            assert(map_of(s)[s[j].key@] == s[j].value@);
        }
    }
    assert(map_of(t) =~= want);
}

/// Whether two texts are the same, found by comparing their encodings.
fn same_text(a: &str, b: &str) -> (r: bool)
    ensures
        r == (a@ == b@),
{
    let x = a.as_bytes();
    let y = b.as_bytes();
    if x.len() != y.len() {
        return false;
    }
    let mut i: usize = 0;
    while i < x.len()
        invariant
            i <= x.len(),
            x.len() == y.len(),
            x@ == encode_utf8(a@),
            y@ == encode_utf8(b@),
            x@.subrange(0, i as int) == y@.subrange(0, i as int),
        decreases x.len() - i,
    {
        if x[i] != y[i] {
            return false;
        }
        i += 1;
        assert(x@.subrange(0, i as int) =~= x@.subrange(0, i - 1).push(x@[i - 1]));
        assert(y@.subrange(0, i as int) =~= y@.subrange(0, i - 1).push(y@[i - 1]));
    }
    proof {
        assert(x@ =~= x@.subrange(0, i as int));
        assert(y@ =~= y@.subrange(0, i as int));
        vstd::utf8::encode_utf8_decode_utf8(a@);
        vstd::utf8::encode_utf8_decode_utf8(b@);
    }
    true
}

/// A map from account names to stored records.
#[derive(Clone, Debug)]
pub struct RecordStore {
    entries: Vec<Entry>,
}

impl View for RecordStore {
    type V = StoreMap;

    closed spec fn view(&self) -> StoreMap {
        map_of(self.entries@)
    }
}

impl RecordStore {
    /// The store's invariant: no key is held twice.
    pub closed spec fn wf(&self) -> bool {
        distinct_keys(self.entries@)
    }

    /// A well-formed store holds finitely many records.
    pub proof fn lemma_finite(&self)
        requires
            self.wf(),
        ensures
            self@.dom().finite(),
    {
        lemma_map_of(self.entries@);
    }

    /// An empty store.
    pub fn new() -> (r: RecordStore)
        ensures
            r.wf(),
            r@ == StoreMap::empty(),
    {
        RecordStore { entries: Vec::new() }
    }

    /// The number of records.
    pub fn len(&self) -> (n: usize)
        requires
            self.wf(),
        ensures
            self@.dom().finite(),
            n == self@.len(),
    {
        proof {
            lemma_map_of(self.entries@);
        }
        self.entries.len()
    }

    /// Whether the store holds no record.
    pub fn is_empty(&self) -> (r: bool)
        requires
            self.wf(),
        ensures
            r == (self@ == StoreMap::empty()),
    {
        proof {
            lemma_map_of(self.entries@);
            if self.entries@.len() == 0 {
                assert(self@ =~= StoreMap::empty());
            } else {
                assert(self@.contains_key(self.entries@[0].key@));
            }
        }
        self.entries.len() == 0
    }

    /// Where the entry of `key` stands, if there is one.
    fn position(&self, key: &str) -> (r: Option<usize>)
        requires
            self.wf(),
        ensures
            match r {
                Some(i) => i < self.entries@.len() && self.entries@[i as int].key@ == key@
                    && self@.contains_key(key@) && self@[key@] == self.entries@[i as int].value@,
                None => !self@.contains_key(key@),
            },
    {
        let mut i: usize = 0;
        while i < self.entries.len()
            invariant
                self.wf(),
                i <= self.entries@.len(),
                forall|j: int| 0 <= j < i ==> self.entries@[j].key@ != key@,
            decreases self.entries@.len() - i,
        {
            if same_text(self.entries[i].key.as_str(), key) {
                proof {
                    lemma_map_of(self.entries@);
                }
                return Some(i);
            }
            i += 1;
        }
        proof {
            lemma_map_of(self.entries@);
        }
        None
    }

    /// Whether a record is stored under `key`.
    pub fn contains_key(&self, key: &str) -> (r: bool)
        requires
            self.wf(),
        ensures
            r == self@.contains_key(key@),
    {
        self.position(key).is_some()
    }

    /// The bytes stored under `key`, untouched.
    pub fn get_raw(&self, key: &str) -> (r: Option<&Vec<u8>>)
        requires
            self.wf(),
        ensures
            match r {
                Some(bytes) => self@.contains_key(key@) && bytes@ == self@[key@],
                None => !self@.contains_key(key@),
            },
    {
        match self.position(key) {
            Some(i) => Some(&self.entries[i].value),
            None => None,
        }
    }

    /// Stores `value` under `key` as it is, in place of whatever was stored
    /// there.
    pub fn insert_raw(&mut self, key: AccountId, value: Vec<u8>)
        requires
            old(self).wf(),
        ensures
            final(self).wf(),
            final(self)@ == old(self)@.insert(key@, value@),
    {
        match self.position(key.as_str()) {
            Some(i) => {
                let entry = Entry { key, value };
                proof {
                    lemma_map_of_update(self.entries@, i as int, entry);
                }
                self.entries.set(i, entry);
            },
            None => {
                let entry = Entry { key, value };
                proof {
                    lemma_map_of(self.entries@);
                    let s = self.entries@;
                    let t = s.push(entry);
                    assert(t.drop_last() =~= s);
                    assert forall|a: int, b: int| 0 <= a < b < t.len() implies t[a].key@
                        != t[b].key@ by {
                        if b == s.len() {
                            assert(map_of(s).contains_key(s[a].key@));
                        }
                    }
                }
                self.entries.push(entry);
            },
        }
    }

    /// Reads the record of `key` in the current shape. The stored bytes stay
    /// as they are.
    pub fn get(&self, key: &str) -> (r: Result<Account, StoreError>)
        requires
            self.wf(),
        ensures
            match r {
                Ok(account) => lookup(self@, key@) == Ok::<AccountView, StoreError>(account@),
                Err(e) => lookup(self@, key@) == Err::<AccountView, StoreError>(e),
            },
    {
        match self.get_raw(key) {
            None => Err(StoreError::NotFound),
            Some(bytes) => match VersionedAccount::decode(bytes.as_slice()) {
                Ok(stored) => Ok(Account::from(stored)),
                Err(e) => Err(e),
            },
        }
    }

    /// Makes sure that `key` has a record: where it has none, a blank one is
    /// stored in the current shape; where it has one, nothing changes.
    pub fn ensure(&mut self, key: AccountId)
        requires
            old(self).wf(),
        ensures
            final(self).wf(),
            final(self)@ == ensured(old(self)@, key@),
    {
        if !self.contains_key(key.as_str()) {
            let stored = VersionedAccount::from(Account::default());
            proof {
                assert(encode_utf8(Seq::<char>::empty()) =~= Seq::<u8>::empty()) by {
                    reveal_with_fuel(encode_utf8, 1);
                }
            }
            let bytes = stored.encode();
            self.insert_raw(key, bytes);
        }
    }

    /// Stores `account` under `key` in the current shape, in place of
    /// whatever was stored there.
    pub fn insert(&mut self, key: AccountId, account: Account)
        requires
            old(self).wf(),
            text_fits(account.bio@),
        ensures
            final(self).wf(),
            final(self)@ == written(old(self)@, key@, account@),
    {
        let stored = VersionedAccount::from(account);
        let bytes = stored.encode();
        self.insert_raw(key, bytes);
    }
}

} // verus!
