//! A map kept as a list of entries, in which no key occurs twice.
use crate::felt::Felt;
use crate::keys::{ClassHash, ContractAddress, StorageEntry, StorageKey};
use vstd::prelude::*;

verus! {

/// What can be a key: a value that can be told apart from others.
pub trait MapKey: Copy {
    /// Whether the two keys are the same.
    fn same(&self, other: &Self) -> (same: bool)
        ensures
            same == (*self == *other),
    ;
}

impl MapKey for Felt {
    fn same(&self, other: &Felt) -> (same: bool) {
        *self == *other
    }
}

impl MapKey for ContractAddress {
    fn same(&self, other: &ContractAddress) -> (same: bool) {
        *self == *other
    }
}

impl MapKey for StorageKey {
    fn same(&self, other: &StorageKey) -> (same: bool) {
        *self == *other
    }
}

impl MapKey for ClassHash {
    fn same(&self, other: &ClassHash) -> (same: bool) {
        *self == *other
    }
}

impl MapKey for StorageEntry {
    fn same(&self, other: &StorageEntry) -> (same: bool) {
        *self == *other
    }
}

/// Whether `key` is the key of one of the entries.
pub open spec fn has_key<K, V>(entries: Seq<(K, V)>, key: K) -> bool {
    exists|i: int| 0 <= i < entries.len() && (#[trigger] entries[i]).0 == key
}

/// Where an entry with the key `key` stands.
pub open spec fn position<K, V>(entries: Seq<(K, V)>, key: K) -> int {
    choose|i: int| 0 <= i < entries.len() && (#[trigger] entries[i]).0 == key
}

/// No key occurs twice.
pub open spec fn distinct_keys<K, V>(entries: Seq<(K, V)>) -> bool {
    forall|i: int, j: int|
        #![trigger entries[i], entries[j]]
        0 <= i < j < entries.len() ==> entries[i].0 != entries[j].0
}

/// The map that the entries are.
pub open spec fn map_of<K, V>(entries: Seq<(K, V)>) -> Map<K, V> {
    Map::new(|key: K| has_key(entries, key), |key: K| entries[position(entries, key)].1)
}

/// Each entry is found under its key.
pub proof fn lemma_entry_is_found<K, V>(entries: Seq<(K, V)>, i: int)
    requires
        distinct_keys(entries),
        0 <= i < entries.len(),
    ensures
        map_of(entries).contains_key(entries[i].0),
        map_of(entries)[entries[i].0] == entries[i].1,
{
    let j = position(entries, entries[i].0);
    assert(entries[i].0 == entries[i].0);
    assert(has_key(entries, entries[i].0));
    assert(0 <= j < entries.len() && entries[j].0 == entries[i].0);
}

/// An entry with a new key extends the map.
proof fn lemma_push<K, V>(entries: Seq<(K, V)>, key: K, value: V)
    requires
        distinct_keys(entries),
        !has_key(entries, key),
    ensures
        distinct_keys(entries.push((key, value))),
        map_of(entries.push((key, value))) == map_of(entries).insert(key, value),
{
    let pushed = entries.push((key, value));
    assert forall|i: int, j: int| 0 <= i < j < pushed.len() implies (#[trigger] pushed[i]).0 != (
    #[trigger] pushed[j]).0 by {
        if j == entries.len() {
            assert(entries[i].0 != key);
        } else {
            assert(entries[i].0 != entries[j].0);
        }
    }
    assert forall|k: K| map_of(pushed).contains_key(k) <==> map_of(entries).insert(key, value).contains_key(
        k,
    ) by {
        if has_key(entries, k) {
            let i = position(entries, k);
            assert(pushed[i].0 == k);
        }
        if k == key {
            assert(pushed[entries.len() as int].0 == k);
        }
        if has_key(pushed, k) && k != key {
            let i = position(pushed, k);
            assert(entries[i].0 == k);
        }
    }
    assert forall|k: K| map_of(pushed).contains_key(k) implies map_of(pushed)[k] == map_of(entries).insert(
        key,
        value,
    )[k] by {
        let i = position(pushed, k);
        lemma_entry_is_found(pushed, i);
        if k != key {
            lemma_entry_is_found(entries, i);
        }
    }
    assert(map_of(pushed) =~= map_of(entries).insert(key, value));
}

/// There are as many keys as entries.
proof fn lemma_len<K, V>(entries: Seq<(K, V)>)
    requires
        distinct_keys(entries),
    ensures
        map_of(entries).dom().finite(),
        map_of(entries).dom().len() == entries.len(),
    decreases entries.len(),
{
    if entries.len() == 0 {
        assert(map_of(entries).dom() =~= Set::<K>::empty());
    } else {
        let before = entries.drop_last();
        lemma_next_entry(entries, entries.len() - 1);
        assert(entries.take(entries.len() - 1) =~= before);
        assert(entries.take(entries.len() as int) =~= entries);
        lemma_len(before);
        assert(map_of(entries).dom() =~= map_of(before).dom().insert(entries.last().0));
    }
}

/// A new value in an entry's place replaces the value under the entry's key.
proof fn lemma_update<K, V>(entries: Seq<(K, V)>, i: int, key: K, value: V)
    requires
        distinct_keys(entries),
        0 <= i < entries.len(),
        entries[i].0 == key,
    ensures
        distinct_keys(entries.update(i, (key, value))),
        map_of(entries.update(i, (key, value))) == map_of(entries).insert(key, value),
{
    let updated = entries.update(i, (key, value));
    assert(forall|j: int| 0 <= j < entries.len() ==> (#[trigger] updated[j]).0 == entries[j].0);
    assert forall|a: int, b: int| 0 <= a < b < updated.len() implies (#[trigger] updated[a]).0 != (
    #[trigger] updated[b]).0 by {
        assert(entries[a].0 != entries[b].0);
    }
    assert forall|k: K| map_of(updated).contains_key(k) <==> map_of(entries).insert(key, value).contains_key(
        k,
    ) by {
        if has_key(entries, k) {
            let j = position(entries, k);
            assert(updated[j].0 == k);
        }
        if has_key(updated, k) {
            let j = position(updated, k);
            assert(entries[j].0 == k);
        }
        if k == key {
            assert(updated[i].0 == k);
        }
    }
    assert forall|k: K| map_of(updated).contains_key(k) implies map_of(updated)[k] == map_of(entries).insert(
        key,
        value,
    )[k] by {
        let j = position(updated, k);
        lemma_entry_is_found(updated, j);
        lemma_entry_is_found(entries, j);
        if k == key {
            lemma_entry_is_found(updated, i);
        }
    }
    assert(map_of(updated) =~= map_of(entries).insert(key, value));
}

/// A map from keys to values.
pub struct AssocMap<K: MapKey, V> {
    entries: Vec<(K, V)>,
}

impl<K: MapKey, V> View for AssocMap<K, V> {
    type V = Map<K, V>;

    open spec fn view(&self) -> Map<K, V> {
        map_of(self.entries())
    }
}

impl<K: MapKey, V> AssocMap<K, V> {
    /// The entries, in the order in which they are kept.
    pub closed spec fn entries(&self) -> Seq<(K, V)> {
        self.entries@
    }

    #[verifier::type_invariant]
    spec fn keys_are_distinct(&self) -> bool {
        distinct_keys(self.entries@)
    }

    /// The map without entries.
    pub fn new() -> (map: Self)
        ensures
            map@ == Map::<K, V>::empty(),
            map.entries() == Seq::<(K, V)>::empty(),
    {
        let map = AssocMap { entries: Vec::new() };
        assert(map@ =~= Map::<K, V>::empty());
        map
    }

    /// How many entries there are.
    pub fn len(&self) -> (len: usize)
        ensures
            len == self.entries().len(),
            self@.dom().finite(),
            len == self@.dom().len(),
    {
        proof {
            use_type_invariant(self);
            lemma_len(self.entries@);
        }
        self.entries.len()
    }

    /// The entry at `index`.
    pub fn entry(&self, index: usize) -> (entry: (&K, &V))
        requires
            index < self.entries().len(),
        ensures
            *entry.0 == self.entries()[index as int].0,
            *entry.1 == self.entries()[index as int].1,
            self@.contains_key(*entry.0),
            self@[*entry.0] == *entry.1,
            distinct_keys(self.entries()),
    {
        proof {
            use_type_invariant(self);
            lemma_entry_is_found(self.entries@, index as int);
        }
        let entry = &self.entries[index];
        (&entry.0, &entry.1)
    }

    /// The value under `key`.
    pub fn get(&self, key: &K) -> (value: Option<&V>)
        ensures
            match value {
                Some(v) => self@.contains_key(*key) && self@[*key] == *v,
                None => !self@.contains_key(*key),
            },
    {
        proof {
            use_type_invariant(self);
        }
        let mut i: usize = 0;
        while i < self.entries.len()
            invariant
                i <= self.entries@.len(),
                distinct_keys(self.entries@),
                forall|j: int| 0 <= j < i ==> (#[trigger] self.entries@[j]).0 != *key,
            decreases self.entries@.len() - i,
        {
            if self.entries[i].0.same(key) {
                proof {
                    lemma_entry_is_found(self.entries@, i as int);
                }
                return Some(&self.entries[i].1);
            }
            i += 1;
        }
        None
    }

    /// Puts `value` under `key`, in place of what was there.
    pub fn insert(&mut self, key: K, value: V)
        ensures
            final(self)@ == old(self)@.insert(key, value),
    {
        proof {
            use_type_invariant(&*self);
        }
        let mut entries: Vec<(K, V)> = Vec::new();
        core::mem::swap(&mut entries, &mut self.entries);
        let mut i: usize = 0;
        while i < entries.len()
            invariant
                i <= entries@.len(),
                entries@ == old(self).entries@,
                distinct_keys(entries@),
                forall|j: int| 0 <= j < i ==> (#[trigger] entries@[j]).0 != key,
            decreases entries@.len() - i,
        {
            if entries[i].0.same(&key) {
                proof {
                    lemma_update(entries@, i as int, key, value);
                }
                entries[i] = (key, value);
                self.entries = entries;
                return ;
            }
            i += 1;
        }
        proof {
            lemma_push(entries@, key, value);
        }
        entries.push((key, value));
        self.entries = entries;
    }
}

/// The first entries and the next one make up the map of one entry more.
pub proof fn lemma_next_entry<K, V>(entries: Seq<(K, V)>, i: int)
    requires
        distinct_keys(entries),
        0 <= i < entries.len(),
    ensures
        distinct_keys(entries.take(i)),
        !map_of(entries.take(i)).contains_key(entries[i].0),
        map_of(entries.take(i + 1)) == map_of(entries.take(i)).insert(entries[i].0, entries[i].1),
{
    let before = entries.take(i);
    assert forall|a: int, b: int| 0 <= a < b < before.len() implies (#[trigger] before[a]).0 != (
    #[trigger] before[b]).0 by {
        assert(entries[a].0 != entries[b].0);
    }
    if has_key(before, entries[i].0) {
        let j = position(before, entries[i].0);
        assert(entries[j].0 == entries[i].0);
    }
    lemma_push(before, entries[i].0, entries[i].1);
    assert(entries.take(i + 1) =~= before.push((entries[i].0, entries[i].1)));
}

/// No entries make up the empty map.
pub proof fn lemma_no_entries<K, V>(entries: Seq<(K, V)>)
    ensures
        map_of(entries.take(0)) == Map::<K, V>::empty(),
        entries.take(entries.len() as int) == entries,
{
    assert(map_of(entries.take(0)) =~= Map::<K, V>::empty());
    assert(entries.take(entries.len() as int) =~= entries);
}

impl<K: MapKey, V: Copy> AssocMap<K, V> {
    /// Puts every entry of `other` into this map, in place of what was there.
    pub fn extend(&mut self, other: &AssocMap<K, V>)
        ensures
            final(self)@ == old(self)@.union_prefer_right(other@),
    {
        proof {
            use_type_invariant(other);
            lemma_no_entries(other.entries@);
            assert(self@ =~= old(self)@.union_prefer_right(map_of(other.entries@.take(0))));
        }
        let mut i: usize = 0;
        while i < other.entries.len()
            invariant
                i <= other.entries@.len(),
                distinct_keys(other.entries@),
                self@ == old(self)@.union_prefer_right(map_of(other.entries@.take(i as int))),
            decreases other.entries@.len() - i,
        {
            let (key, value) = (other.entries[i].0, other.entries[i].1);
            self.insert(key, value);
            proof {
                lemma_next_entry(other.entries@, i as int);
                assert(self@ =~= old(self)@.union_prefer_right(map_of(other.entries@.take(i + 1))));
            }
            i += 1;
        }
    }

    /// A map with the same entries.
    pub fn duplicate(&self) -> (map: AssocMap<K, V>)
        ensures
            map@ == self@,
    {
        let mut map: AssocMap<K, V> = AssocMap::new();
        map.extend(self);
        assert(map@ =~= self@);
        map
    }
}

/// A map holds exactly its entries: each key with its value, and nothing else.
pub proof fn a_map_holds_exactly_its_entries<K, V>(entries: Seq<(K, V)>, key: K, value: V)
    requires
        distinct_keys(entries),
    ensures
        map_of(entries).contains_pair(key, value) <==> entries.contains((key, value)),
{
    if entries.contains((key, value)) {
        let i = choose|i: int| 0 <= i < entries.len() && entries[i] == (key, value);
        lemma_entry_is_found(entries, i);
    }
    if map_of(entries).contains_pair(key, value) {
        let i = position(entries, key);
        assert(0 <= i < entries.len() && entries[i].0 == key);
        assert(entries[i] == (key, value));
    }
}

} // verus!
