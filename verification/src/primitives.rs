//! Byte strings, addresses, the ledger and keyed tables, shared by both contracts.

use vstd::prelude::*;

verus! {

/// A byte string of fixed length `N`.
#[derive(Clone, Copy, Debug)]
pub struct BytesN<const N: usize> {
    pub bytes: [u8; N],
}

impl<const N: usize> View for BytesN<N> {
    type V = Seq<u8>;

    open spec fn view(&self) -> Seq<u8> {
        self.bytes@
    }
}

impl<const N: usize> PartialEq for BytesN<N> {
    fn eq(&self, other: &Self) -> (r: bool) {
        let mut i: usize = 0;
        while i < N
            invariant
                i <= N,
                forall|k: int| 0 <= k < i ==> self.bytes[k] == other.bytes[k],
            decreases N - i,
        {
            if self.bytes[i] != other.bytes[i] {
                assert(self.bytes@[i as int] != other.bytes@[i as int]);
                return false;
            }
            i = i + 1;
        }
        assert(self.bytes =~= other.bytes);
        true
    }
}

impl<const N: usize> vstd::std_specs::cmp::PartialEqSpecImpl for BytesN<N> {
    open spec fn obeys_eq_spec() -> bool {
        true
    }

    open spec fn eq_spec(&self, other: &Self) -> bool {
        *self == *other
    }
}

impl<const N: usize> Eq for BytesN<N> {

}

impl<const N: usize> BytesN<N> {
    /// Wraps an array of bytes.
    pub fn from_array(bytes: [u8; N]) -> (r: Self)
        ensures
            r.bytes == bytes,
            r@ == bytes@,
    {
        BytesN { bytes }
    }

    /// The bytes as an array.
    pub fn to_array(&self) -> (r: [u8; N])
        ensures
            r == self.bytes,
            r@ == self@,
    {
        self.bytes
    }
}

/// The 32-byte string that spells `s`.
pub open spec fn bytes32(s: Seq<u8>) -> BytesN<32> {
    BytesN {
        bytes: [
            s[0], s[1], s[2], s[3], s[4], s[5], s[6], s[7], s[8], s[9], s[10], s[11], s[12], s[13],
            s[14], s[15], s[16], s[17], s[18], s[19], s[20], s[21], s[22], s[23], s[24], s[25],
            s[26], s[27], s[28], s[29], s[30], s[31],
        ],
    }
}

/// Every sequence of 32 bytes is the view of a byte string.
pub proof fn lemma_bytes32(s: Seq<u8>)
    requires
        s.len() == 32,
    ensures
        bytes32(s)@ == s,
{
    assert(bytes32(s)@ =~= s);
}

/// Byte strings with the same view are the same.
pub proof fn lemma_bytes_are_their_view<const N: usize>(a: BytesN<N>, b: BytesN<N>)
    requires
        a@ == b@,
    ensures
        a == b,
{
    assert(a.bytes =~= b.bytes) by {
        assert forall|i: int| 0 <= i < N implies a.bytes[i] == b.bytes[i] by {
            assert(a@[i] == b@[i]);
        }
    }
}

/// A ledger address: an account key or a contract id.
#[derive(Clone, Copy, Debug)]
pub enum Address {
    Account(BytesN<32>),
    Contract(BytesN<32>),
}

impl PartialEq for Address {
    fn eq(&self, other: &Self) -> (r: bool) {
        match (self, other) {
            (Address::Account(a), Address::Account(b)) => *a == *b,
            (Address::Contract(a), Address::Contract(b)) => *a == *b,
            _ => false,
        }
    }
}

impl vstd::std_specs::cmp::PartialEqSpecImpl for Address {
    open spec fn obeys_eq_spec() -> bool {
        true
    }

    open spec fn eq_spec(&self, other: &Self) -> bool {
        *self == *other
    }
}

impl Eq for Address {

}

/// What a call sees of the ledger.
#[derive(Clone, Copy, Debug, PartialEq, Eq)]
pub struct Ledger {
    /// The address of the contract that is called.
    pub contract: Address,
    /// Sequence number of the ledger that is being closed.
    pub sequence: u32,
    /// Unix timestamp of the ledger.
    pub timestamp: u64,
    /// Largest time to live that the network grants.
    pub max_ttl: u32,
}

/// A value that can key a [`Table`].
pub trait Key: Copy {
    /// Whether two keys are the same key.
    fn same(&self, other: &Self) -> (r: bool)
        ensures
            r == (*self == *other),
    ;
}

impl Key for BytesN<32> {
    fn same(&self, other: &Self) -> (r: bool) {
        *self == *other
    }
}

impl Key for Address {
    fn same(&self, other: &Self) -> (r: bool) {
        *self == *other
    }
}

impl Key for u64 {
    fn same(&self, other: &Self) -> (r: bool) {
        *self == *other
    }
}

/// The value under `key` in a list of entries; the first match counts.
pub open spec fn lookup<K, V>(entries: Seq<(K, V)>, key: K) -> Option<V>
    decreases entries.len(),
{
    if entries.len() == 0 {
        None
    } else if entries[0].0 == key {
        Some(entries[0].1)
    } else {
        lookup(entries.drop_first(), key)
    }
}

/// The entries as a map.
pub open spec fn entries_map<K, V>(entries: Seq<(K, V)>) -> Map<K, V> {
    Map::new(|k: K| lookup(entries, k) is Some, |k: K| lookup(entries, k)->0)
}

/// A key that no entry has is not found.
pub proof fn lemma_lookup_absent<K, V>(entries: Seq<(K, V)>, key: K)
    requires
        forall|i: int| 0 <= i < entries.len() ==> (#[trigger] entries[i]).0 != key,
    ensures
        lookup(entries, key) is None,
    decreases entries.len(),
{
    if entries.len() > 0 {
        assert forall|i: int| 0 <= i < entries.drop_first().len() implies (
        #[trigger] entries.drop_first()[i]).0 != key by {
            assert(entries.drop_first()[i] == entries[i + 1]);
        }
        lemma_lookup_absent(entries.drop_first(), key);
    }
}

proof fn lemma_lookup_first<K, V>(entries: Seq<(K, V)>, at: int)
    requires
        0 <= at < entries.len(),
        forall|i: int| 0 <= i < at ==> (#[trigger] entries[i]).0 != entries[at].0,
    ensures
        lookup(entries, entries[at].0) == Some(entries[at].1),
    decreases at,
{
    if at > 0 {
        let rest = entries.drop_first();
        assert(rest[at - 1] == entries[at]);
        assert forall|i: int| 0 <= i < at - 1 implies (#[trigger] rest[i]).0 != rest[at - 1].0 by {
            assert(rest[i] == entries[i + 1]);
        }
        assert(entries[0].0 != entries[at].0);
        lemma_lookup_first(rest, at - 1);
    }
}

proof fn lemma_lookup_update<K, V>(entries: Seq<(K, V)>, at: int, value: V, key: K)
    requires
        0 <= at < entries.len(),
        forall|i: int| 0 <= i < at ==> (#[trigger] entries[i]).0 != entries[at].0,
    ensures
        lookup(entries.update(at, (entries[at].0, value)), key) == (if key == entries[at].0 {
            Some(value)
        } else {
            lookup(entries, key)
        }),
    decreases at,
{
    let new = entries.update(at, (entries[at].0, value));
    if at > 0 {
        let rest = entries.drop_first();
        assert(rest[at - 1] == entries[at]);
        assert forall|i: int| 0 <= i < at - 1 implies (#[trigger] rest[i]).0 != rest[at - 1].0 by {
            assert(rest[i] == entries[i + 1]);
        }
        assert(entries[0].0 != entries[at].0);
        lemma_lookup_update(rest, at - 1, value, key);
        assert(new.drop_first() =~= rest.update(at - 1, (entries[at].0, value)));
    } else {
        assert(new.drop_first() =~= entries.drop_first());
    }
}

proof fn lemma_lookup_push<K, V>(entries: Seq<(K, V)>, new_key: K, value: V, key: K)
    requires
        forall|i: int| 0 <= i < entries.len() ==> (#[trigger] entries[i]).0 != new_key,
    ensures
        lookup(entries.push((new_key, value)), key) == (if key == new_key {
            Some(value)
        } else {
            lookup(entries, key)
        }),
    decreases entries.len(),
{
    let new = entries.push((new_key, value));
    if entries.len() > 0 {
        let rest = entries.drop_first();
        assert forall|i: int| 0 <= i < rest.len() implies (#[trigger] rest[i]).0 != new_key by {
            assert(rest[i] == entries[i + 1]);
        }
        assert(entries[0].0 != new_key);
        lemma_lookup_push(rest, new_key, value, key);
        assert(new.drop_first() =~= rest.push((new_key, value)));
    } else {
        assert(lookup(new.drop_first(), key) is None);
    }
}

/// A small map kept as a list of entries.
#[derive(Debug)]
pub struct Table<K, V> {
    pub entries: Vec<(K, V)>,
}

impl<K, V> View for Table<K, V> {
    type V = Map<K, V>;

    open spec fn view(&self) -> Map<K, V> {
        entries_map(self.entries@)
    }
}

impl<K: Key, V: Copy> Table<K, V> {
    /// A table without entries.
    pub fn new() -> (r: Self)
        ensures
            r@ == Map::<K, V>::empty(),
    {
        let r: Table<K, V> = Table { entries: Vec::new() };
        assert(r@ =~= Map::<K, V>::empty());
        r
    }

    /// The value stored under `key`.
    pub fn get(&self, key: K) -> (r: Option<V>)
        ensures
            r == (if self@.contains_key(key) {
                Some(self@[key])
            } else {
                None
            }),
    {
        let mut i: usize = 0;
        while i < self.entries.len()
            invariant
                i <= self.entries.len(),
                forall|k: int| 0 <= k < i ==> (#[trigger] self.entries@[k]).0 != key,
            decreases self.entries.len() - i,
        {
            if self.entries[i].0.same(&key) {
                proof {
                    lemma_lookup_first(self.entries@, i as int);
                }
                return Some(self.entries[i].1);
            }
            i = i + 1;
        }
        proof {
            lemma_lookup_absent(self.entries@, key);
        }
        None
    }

    /// Whether a value is stored under `key`.
    pub fn has(&self, key: K) -> (r: bool)
        ensures
            r == self@.contains_key(key),
    {
        self.get(key).is_some()
    }

    /// Stores `value` under `key`, replacing what was there.
    pub fn set(&mut self, key: K, value: V)
        ensures
            final(self)@ == old(self)@.insert(key, value),
    {
        let mut i: usize = 0;
        while i < self.entries.len()
            invariant
                i <= self.entries.len(),
                *self == *old(self),
                forall|k: int| 0 <= k < i ==> (#[trigger] self.entries@[k]).0 != key,
            decreases self.entries.len() - i,
        {
            if self.entries[i].0.same(&key) {
                self.entries.set(i, (key, value));
                proof {
                    assert forall|k: K|
                        lookup(self.entries@, k) == (if k == key {
                            Some(value)
                        } else {
                            lookup(old(self).entries@, k)
                        }) by {
                        lemma_lookup_update(old(self).entries@, i as int, value, k);
                    }
                    assert(self@ =~= old(self)@.insert(key, value));
                }
                return;
            }
            i = i + 1;
        }
        self.entries.push((key, value));
        proof {
            assert forall|k: K|
                lookup(self.entries@, k) == (if k == key {
                    Some(value)
                } else {
                    lookup(old(self).entries@, k)
                }) by {
                lemma_lookup_push(old(self).entries@, key, value, k);
            }
            assert(self@ =~= old(self)@.insert(key, value));
        }
    }

    /// A copy of the table.
    pub fn duplicate(&self) -> (r: Self)
        ensures
            r.entries@ == self.entries@,
            r@ == self@,
    {
        let mut entries: Vec<(K, V)> = Vec::new();
        let mut i: usize = 0;
        while i < self.entries.len()
            invariant
                i <= self.entries.len(),
                entries@ == self.entries@.take(i as int),
            decreases self.entries.len() - i,
        {
            let entry = self.entries[i];
            entries.push(entry);
            i = i + 1;
            assert(entries@ =~= self.entries@.take(i as int));
        }
        assert(entries@ =~= self.entries@);
        Table { entries }
    }
}

} // verus!
