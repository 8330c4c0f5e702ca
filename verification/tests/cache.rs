//! Maps, state changes and the cache.
use block_production::assoc_map::AssocMap;
use block_production::cache::StateCache;
use block_production::felt::Felt;
use block_production::keys::{ClassHash, CompiledClassHash, ContractAddress, Nonce, StorageEntry, StorageKey};
use block_production::state::{CommitmentStateDiff, StateMaps};

fn felt(value: u128) -> Felt {
    Felt::new(0, value).unwrap()
}

fn entry(address: u64, key: u64) -> StorageEntry {
    StorageEntry { contract_address: ContractAddress::from_u64(address), key: StorageKey::from_u64(key) }
}

#[test]
fn a_map_keeps_one_value_per_key() {
    let mut map: AssocMap<Felt, u64> = AssocMap::new();
    assert_eq!(map.len(), 0);
    assert_eq!(map.get(&felt(1)), None);
    map.insert(felt(1), 10);
    map.insert(felt(2), 20);
    map.insert(felt(1), 11);
    assert_eq!(map.len(), 2);
    assert_eq!(map.get(&felt(1)), Some(&11));
    assert_eq!(map.get(&felt(2)), Some(&20));
    assert_eq!(map.entry(0), (&felt(1), &11));
    assert_eq!(map.entry(1), (&felt(2), &20));
}

#[test]
fn extending_a_map_prefers_the_new_values() {
    let mut map: AssocMap<Felt, u64> = AssocMap::new();
    map.insert(felt(1), 10);
    map.insert(felt(2), 20);
    let mut other: AssocMap<Felt, u64> = AssocMap::new();
    other.insert(felt(2), 21);
    other.insert(felt(3), 30);
    map.extend(&other);
    let copy = map.duplicate();
    for m in [&map, &copy] {
        assert_eq!(m.len(), 3);
        assert_eq!(m.get(&felt(1)), Some(&10));
        assert_eq!(m.get(&felt(2)), Some(&21));
        assert_eq!(m.get(&felt(3)), Some(&30));
    }
}

#[test]
fn later_changes_count() {
    let mut first = StateMaps::new();
    first.nonces.insert(ContractAddress::from_u64(5), Nonce(felt(1)));
    first.storage.insert(entry(5, 6), felt(7));
    let mut second = StateMaps::new();
    second.storage.insert(entry(5, 6), felt(8));
    second.class_hashes.insert(ContractAddress::from_u64(5), ClassHash(felt(9)));
    second.compiled_class_hashes.insert(ClassHash(felt(9)), CompiledClassHash(felt(10)));
    second.declared_contracts.insert(ClassHash(felt(9)), true);
    first.extend(&second);
    let copy = first.duplicate();
    assert_eq!(copy.nonces.get(&ContractAddress::from_u64(5)), Some(&Nonce(felt(1))));
    assert_eq!(copy.storage.get(&entry(5, 6)), Some(&felt(8)));
    assert_eq!(copy.class_hashes.get(&ContractAddress::from_u64(5)), Some(&ClassHash(felt(9))));
    assert_eq!(copy.compiled_class_hashes.get(&ClassHash(felt(9))), Some(&CompiledClassHash(felt(10))));
    assert_eq!(copy.declared_contracts.get(&ClassHash(felt(9))), Some(&true));
}

#[test]
fn a_transactions_changes_are_brought_together() {
    let mut diff = CommitmentStateDiff {
        address_to_class_hash: AssocMap::new(),
        address_to_nonce: AssocMap::new(),
        storage_updates: AssocMap::new(),
        class_hash_to_compiled_class_hash: AssocMap::new(),
    };
    diff.address_to_class_hash.insert(ContractAddress::from_u64(1), ClassHash(felt(100)));
    diff.address_to_nonce.insert(ContractAddress::from_u64(1), Nonce(felt(3)));
    diff.class_hash_to_compiled_class_hash.insert(ClassHash(felt(100)), CompiledClassHash(felt(200)));
    for address in 1..3u64 {
        let mut cells: AssocMap<StorageKey, Felt> = AssocMap::new();
        cells.insert(StorageKey::from_u64(1), felt(u128::from(address) * 10 + 1));
        cells.insert(StorageKey::from_u64(2), felt(u128::from(address) * 10 + 2));
        diff.storage_updates.insert(ContractAddress::from_u64(address), cells);
    }
    let maps = StateMaps::from_commitment_state_diff(diff);
    assert_eq!(maps.storage.len(), 4);
    assert_eq!(maps.storage.get(&entry(1, 1)), Some(&felt(11)));
    assert_eq!(maps.storage.get(&entry(1, 2)), Some(&felt(12)));
    assert_eq!(maps.storage.get(&entry(2, 1)), Some(&felt(21)));
    assert_eq!(maps.storage.get(&entry(2, 2)), Some(&felt(22)));
    assert_eq!(maps.storage.get(&entry(3, 1)), None);
    assert_eq!(maps.class_hashes.get(&ContractAddress::from_u64(1)), Some(&ClassHash(felt(100))));
    assert_eq!(maps.nonces.get(&ContractAddress::from_u64(1)), Some(&Nonce(felt(3))));
    assert_eq!(maps.compiled_class_hashes.get(&ClassHash(felt(100))), Some(&CompiledClassHash(felt(200))));
    assert_eq!(maps.declared_contracts.len(), 0);
}

#[test]
fn a_cache_reads_what_was_written_and_else_what_was_first() {
    let mut cache = StateCache::new();
    let address = ContractAddress::from_u64(5);
    let key = StorageKey::from_u64(6);
    assert_eq!(cache.get_storage_at(address, key), None);
    assert_eq!(cache.get_nonce_at(address), None);
    cache.set_storage_initial_value(address, key, felt(1));
    cache.set_nonce_initial_value(address, Nonce(felt(2)));
    assert_eq!(cache.get_storage_at(address, key), Some(felt(1)));
    assert_eq!(cache.get_nonce_at(address), Some(Nonce(felt(2))));
    cache.set_storage_value(address, key, felt(3));
    cache.set_nonce_value(address, Nonce(felt(4)));
    assert_eq!(cache.get_storage_at(address, key), Some(felt(3)));
    assert_eq!(cache.get_nonce_at(address), Some(Nonce(felt(4))));
    cache.set_storage_initial_value(address, key, felt(9));
    assert_eq!(cache.get_storage_at(address, key), Some(felt(3)));
    assert_eq!(cache.get_storage_at(address, StorageKey::from_u64(7)), None);
    assert_eq!(cache.get_nonce_at(ContractAddress::from_u64(6)), None);
    assert_eq!(cache.initial_reads.storage.get(&entry(5, 6)), Some(&felt(9)));
}

#[test]
fn a_cache_reads_classes() {
    let mut cache = StateCache::new();
    let address = ContractAddress::from_u64(5);
    assert_eq!(cache.get_class_hash_at(address), None);
    assert_eq!(cache.get_compiled_class_hash(ClassHash(felt(1))), None);
    cache.initial_reads.class_hashes.insert(address, ClassHash(felt(1)));
    cache.initial_reads.compiled_class_hashes.insert(ClassHash(felt(1)), CompiledClassHash(felt(2)));
    assert_eq!(cache.get_class_hash_at(address), Some(ClassHash(felt(1))));
    assert_eq!(cache.get_compiled_class_hash(ClassHash(felt(1))), Some(CompiledClassHash(felt(2))));
    cache.writes.class_hashes.insert(address, ClassHash(felt(3)));
    cache.writes.compiled_class_hashes.insert(ClassHash(felt(1)), CompiledClassHash(felt(4)));
    assert_eq!(cache.get_class_hash_at(address), Some(ClassHash(felt(3))));
    assert_eq!(cache.get_compiled_class_hash(ClassHash(felt(1))), Some(CompiledClassHash(felt(4))));
}
