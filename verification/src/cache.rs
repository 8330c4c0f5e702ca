//! The cache in front of a block's state: what was read at first, and what was written since.
use crate::felt::Felt;
use crate::keys::{ClassHash, CompiledClassHash, ContractAddress, Nonce, StorageEntry, StorageKey};
use crate::state::{StateMaps, StateMapsView};
use vstd::prelude::*;

verus! {

/// What a cache holds.
#[verifier::ext_equal]
pub struct StateCacheView {
    pub initial_reads: StateMapsView,
    pub writes: StateMapsView,
}

/// The value that `later` holds under `key`, or else the one that `earlier` holds.
pub open spec fn latest<K, V>(earlier: Map<K, V>, later: Map<K, V>, key: K) -> Option<V> {
    if later.contains_key(key) {
        Some(later[key])
    } else if earlier.contains_key(key) {
        Some(earlier[key])
    } else {
        None
    }
}

impl StateCacheView {
    /// A cache that holds nothing.
    pub open spec fn empty() -> StateCacheView {
        StateCacheView { initial_reads: StateMapsView::empty(), writes: StateMapsView::empty() }
    }

    /// The value of a storage cell, if the cache holds one.
    pub open spec fn storage_at(self, entry: StorageEntry) -> Option<Felt> {
        latest(self.initial_reads.storage, self.writes.storage, entry)
    }

    /// The nonce of a contract, if the cache holds one.
    pub open spec fn nonce_at(self, contract_address: ContractAddress) -> Option<Nonce> {
        latest(self.initial_reads.nonces, self.writes.nonces, contract_address)
    }

    /// The class of a contract, if the cache holds one.
    pub open spec fn class_hash_at(self, contract_address: ContractAddress) -> Option<ClassHash> {
        latest(self.initial_reads.class_hashes, self.writes.class_hashes, contract_address)
    }

    /// The compiled form of a class, if the cache holds one.
    pub open spec fn compiled_class_hash(self, class_hash: ClassHash) -> Option<CompiledClassHash> {
        latest(
            self.initial_reads.compiled_class_hashes,
            self.writes.compiled_class_hashes,
            class_hash,
        )
    }

    /// The cache with a storage cell's first value.
    pub open spec fn with_initial_storage(self, entry: StorageEntry, value: Felt) -> StateCacheView {
        StateCacheView {
            initial_reads: StateMapsView {
                storage: self.initial_reads.storage.insert(entry, value),
                ..self.initial_reads
            },
            ..self
        }
    }

    /// The cache with a value written to a storage cell.
    pub open spec fn with_storage(self, entry: StorageEntry, value: Felt) -> StateCacheView {
        StateCacheView {
            writes: StateMapsView {
                storage: self.writes.storage.insert(entry, value),
                ..self.writes
            },
            ..self
        }
    }

    /// The cache with a contract's first nonce.
    pub open spec fn with_initial_nonce(
        self,
        contract_address: ContractAddress,
        nonce: Nonce,
    ) -> StateCacheView {
        StateCacheView {
            initial_reads: StateMapsView {
                nonces: self.initial_reads.nonces.insert(contract_address, nonce),
                ..self.initial_reads
            },
            ..self
        }
    }

    /// The cache with a nonce written for a contract.
    pub open spec fn with_nonce(self, contract_address: ContractAddress, nonce: Nonce) -> StateCacheView {
        StateCacheView {
            writes: StateMapsView {
                nonces: self.writes.nonces.insert(contract_address, nonce),
                ..self.writes
            },
            ..self
        }
    }
}

/// First values and later writes.
pub struct StateCache {
    pub initial_reads: StateMaps,
    pub writes: StateMaps,
}

impl View for StateCache {
    type V = StateCacheView;

    open spec fn view(&self) -> StateCacheView {
        StateCacheView { initial_reads: self.initial_reads@, writes: self.writes@ }
    }
}

impl StateCache {
    /// A cache that holds nothing.
    pub fn new() -> (cache: StateCache)
        ensures
            cache@ == StateCacheView::empty(),
    {
        StateCache { initial_reads: StateMaps::new(), writes: StateMaps::new() }
    }

    /// The value of a storage cell, if the cache holds one: the one written, or else the first.
    pub fn get_storage_at(&self, contract_address: ContractAddress, key: StorageKey) -> (value: Option<
        Felt,
    >)
        ensures
            value == self@.storage_at(StorageEntry { contract_address, key }),
    {
        let entry = StorageEntry { contract_address, key };
        match self.writes.storage.get(&entry) {
            Some(value) => Some(*value),
            None => match self.initial_reads.storage.get(&entry) {
                Some(value) => Some(*value),
                None => None,
            },
        }
    }

    /// The nonce of a contract, if the cache holds one: the one written, or else the first.
    pub fn get_nonce_at(&self, contract_address: ContractAddress) -> (nonce: Option<Nonce>)
        ensures
            nonce == self@.nonce_at(contract_address),
    {
        match self.writes.nonces.get(&contract_address) {
            Some(nonce) => Some(*nonce),
            None => match self.initial_reads.nonces.get(&contract_address) {
                Some(nonce) => Some(*nonce),
                None => None,
            },
        }
    }

    /// The class of a contract, if the cache holds one: the one written, or else the first.
    pub fn get_class_hash_at(&self, contract_address: ContractAddress) -> (class_hash: Option<ClassHash>)
        ensures
            class_hash == self@.class_hash_at(contract_address),
    {
        match self.writes.class_hashes.get(&contract_address) {
            Some(class_hash) => Some(*class_hash),
            None => match self.initial_reads.class_hashes.get(&contract_address) {
                Some(class_hash) => Some(*class_hash),
                None => None,
            },
        }
    }

    /// The compiled form of a class, if the cache holds one: the one written, or else the first.
    pub fn get_compiled_class_hash(&self, class_hash: ClassHash) -> (compiled: Option<CompiledClassHash>)
        ensures
            compiled == self@.compiled_class_hash(class_hash),
    {
        match self.writes.compiled_class_hashes.get(&class_hash) {
            Some(compiled) => Some(*compiled),
            None => match self.initial_reads.compiled_class_hashes.get(&class_hash) {
                Some(compiled) => Some(*compiled),
                None => None,
            },
        }
    }

    /// Records the first value of a storage cell.
    pub fn set_storage_initial_value(
        &mut self,
        contract_address: ContractAddress,
        key: StorageKey,
        value: Felt,
    )
        ensures
            final(self)@ == old(self)@.with_initial_storage(
                StorageEntry { contract_address, key },
                value,
            ),
    {
        self.initial_reads.storage.insert(StorageEntry { contract_address, key }, value);
    }

    /// Writes a value to a storage cell.
    pub fn set_storage_value(&mut self, contract_address: ContractAddress, key: StorageKey, value: Felt)
        ensures
            final(self)@ == old(self)@.with_storage(StorageEntry { contract_address, key }, value),
    {
        self.writes.storage.insert(StorageEntry { contract_address, key }, value);
    }

    /// Records the first nonce of a contract.
    pub fn set_nonce_initial_value(&mut self, contract_address: ContractAddress, nonce: Nonce)
        ensures
            final(self)@ == old(self)@.with_initial_nonce(contract_address, nonce),
    {
        self.initial_reads.nonces.insert(contract_address, nonce);
    }

    /// Writes a contract's nonce.
    pub fn set_nonce_value(&mut self, contract_address: ContractAddress, nonce: Nonce)
        ensures
            final(self)@ == old(self)@.with_nonce(contract_address, nonce),
    {
        self.writes.nonces.insert(contract_address, nonce);
    }
}

/// A storage cell reads back what was written to it, and every other cell reads as before.
pub proof fn storage_reads_back_what_was_written(
    cache: StateCacheView,
    written: StorageEntry,
    value: Felt,
    other: StorageEntry,
)
    ensures
        cache.with_storage(written, value).storage_at(written) == Some(value),
        other != written ==> cache.with_storage(written, value).storage_at(other)
            == cache.storage_at(other),
{
}

/// A contract's nonce reads back as it was written, and every other nonce reads as before.
pub proof fn nonce_reads_back_what_was_written(
    cache: StateCacheView,
    written: ContractAddress,
    nonce: Nonce,
    other: ContractAddress,
)
    ensures
        cache.with_nonce(written, nonce).nonce_at(written) == Some(nonce),
        other != written ==> cache.with_nonce(written, nonce).nonce_at(other) == cache.nonce_at(other),
{
}

/// A first value is what a cell reads until the cell is written.
pub proof fn initial_storage_is_read_until_written(
    cache: StateCacheView,
    entry: StorageEntry,
    value: Felt,
)
    ensures
        cache.with_initial_storage(entry, value).storage_at(entry) == (
        if cache.writes.storage.contains_key(entry) {
            cache.storage_at(entry)
        } else {
            Some(value)
        }),
{
}

/// A cache reads what was written, and else what was first, and nothing where there is neither.
pub proof fn a_cache_reads_the_latest_value(
    cache: StateCacheView,
    entry: StorageEntry,
    address: ContractAddress,
    class_hash: ClassHash,
)
    ensures
        cache.writes.storage.contains_key(entry) ==> cache.storage_at(entry) == Some(
            cache.writes.storage[entry],
        ),
        !cache.writes.storage.contains_key(entry) && cache.initial_reads.storage.contains_key(entry)
            ==> cache.storage_at(entry) == Some(cache.initial_reads.storage[entry]),
        cache.storage_at(entry) is Some ==> cache.writes.storage.contains_key(entry)
            || cache.initial_reads.storage.contains_key(entry),
        cache.writes.nonces.contains_key(address) ==> cache.nonce_at(address) == Some(
            cache.writes.nonces[address],
        ),
        !cache.writes.nonces.contains_key(address) && cache.initial_reads.nonces.contains_key(address)
            ==> cache.nonce_at(address) == Some(cache.initial_reads.nonces[address]),
        cache.nonce_at(address) is Some ==> cache.writes.nonces.contains_key(address)
            || cache.initial_reads.nonces.contains_key(address),
        cache.writes.class_hashes.contains_key(address) ==> cache.class_hash_at(address) == Some(
            cache.writes.class_hashes[address],
        ),
        !cache.writes.class_hashes.contains_key(address) && cache.initial_reads.class_hashes.contains_key(
            address,
        ) ==> cache.class_hash_at(address) == Some(cache.initial_reads.class_hashes[address]),
        cache.class_hash_at(address) is Some ==> cache.writes.class_hashes.contains_key(address)
            || cache.initial_reads.class_hashes.contains_key(address),
        cache.writes.compiled_class_hashes.contains_key(class_hash) ==> cache.compiled_class_hash(
            class_hash,
        ) == Some(cache.writes.compiled_class_hashes[class_hash]),
        !cache.writes.compiled_class_hashes.contains_key(class_hash)
            && cache.initial_reads.compiled_class_hashes.contains_key(class_hash)
            ==> cache.compiled_class_hash(class_hash) == Some(
            cache.initial_reads.compiled_class_hashes[class_hash],
        ),
        cache.compiled_class_hash(class_hash) is Some ==> cache.writes.compiled_class_hashes.contains_key(
            class_hash,
        ) || cache.initial_reads.compiled_class_hashes.contains_key(class_hash),
{
}

/// Recording a first value, or writing one, touches that value alone: what else was first or written,
/// of cells, nonces and classes, is as before.
pub proof fn a_recorded_value_touches_nothing_else(
    cache: StateCacheView,
    entry: StorageEntry,
    value: Felt,
    address: ContractAddress,
    nonce: Nonce,
)
    ensures
        cache.with_storage(entry, value).initial_reads == cache.initial_reads,
        cache.with_initial_storage(entry, value).writes == cache.writes,
        cache.with_nonce(address, nonce).initial_reads == cache.initial_reads,
        cache.with_initial_nonce(address, nonce).writes == cache.writes,
        cache.with_initial_storage(entry, value).initial_reads.storage.contains_pair(entry, value),
        cache.with_initial_nonce(address, nonce).initial_reads.nonces.contains_pair(address, nonce),
        forall|other: StorageEntry|
            other != entry ==> #[trigger] cache.with_initial_storage(entry, value).storage_at(other)
                == cache.storage_at(other),
        forall|other: ContractAddress|
            other != address ==> #[trigger] cache.with_initial_nonce(address, nonce).nonce_at(other)
                == cache.nonce_at(other),
        forall|other: ContractAddress|
            {
                &&& #[trigger] cache.with_storage(entry, value).class_hash_at(other)
                    == cache.class_hash_at(other)
                &&& cache.with_storage(entry, value).nonce_at(other) == cache.nonce_at(other)
            },
        forall|class_hash: ClassHash|
            {
                &&& #[trigger] cache.with_storage(entry, value).compiled_class_hash(class_hash)
                    == cache.compiled_class_hash(class_hash)
                &&& cache.with_nonce(address, nonce).compiled_class_hash(class_hash)
                    == cache.compiled_class_hash(class_hash)
            },
        forall|other: ContractAddress| #[trigger]
            cache.with_nonce(address, nonce).class_hash_at(other) == cache.class_hash_at(other),
        forall|other: StorageEntry| #[trigger]
            cache.with_nonce(address, nonce).storage_at(other) == cache.storage_at(other),
{
}

} // verus!
