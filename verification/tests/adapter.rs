//! Answers to state queries.
use block_production::adapter::{
    BlockifierStateAdapter, Lookup, NonceLookup, RunnableCompiledClass, StateError,
};
use block_production::assoc_map::AssocMap;
use block_production::cache::StateCache;
use block_production::felt::Felt;
use block_production::keys::{ClassHash, CompiledClassHash, ContractAddress, Nonce, StorageKey};

fn felt(value: u128) -> Felt {
    Felt::new(0, value).unwrap()
}

fn adapter() -> BlockifierStateAdapter {
    BlockifierStateAdapter::new(
        "block 7".to_string(),
        8,
        AssocMap::new(),
        AssocMap::new(),
        StateCache::new(),
    )
}

/// The message of a failure to read.
fn failure<T>(outcome: Result<T, StateError>) -> String {
    match outcome {
        Err(StateError::StateReadError(text)) => text,
        _ => panic!("not a failure to read"),
    }
}

/// The outcome of a query that has come to its end.
fn done<T>(lookup: Lookup<T>) -> Result<T, StateError> {
    match lookup {
        Lookup::Done(outcome) => outcome,
        Lookup::AskView => panic!("not done"),
    }
}

fn nonce_done(lookup: NonceLookup) -> Result<bool, StateError> {
    match lookup {
        NonceLookup::Done(outcome) => outcome,
        NonceLookup::FindTransaction(_) => panic!("not done"),
    }
}

#[test]
fn a_new_adapter_holds_what_it_is_given() {
    let adapter = adapter();
    assert_eq!(adapter.view, "block 7");
    assert_eq!(adapter.block_number, 8);
    assert_eq!(adapter.storage_reads.len(), 0);
    assert_eq!(adapter.nonce_reads.len(), 0);
}

#[test]
fn storage_comes_from_the_cache_first() {
    let mut adapter = adapter();
    let address = ContractAddress::from_u64(255);
    let key = StorageKey::from_u64(16);
    adapter.cache.set_storage_value(address, key, felt(42));
    let value = done(adapter.get_storage_at(address, key, None));
    assert!(matches!(value, Ok(v) if v == felt(42)));
    assert_eq!(adapter.storage_reads.get(&address), Some(&key));
}

#[test]
fn storage_is_asked_of_the_view_next() {
    let mut adapter = adapter();
    let address = ContractAddress::from_u64(255);
    let key = StorageKey::from_u64(16);
    assert!(matches!(adapter.get_storage_at(address, key, None), Lookup::AskView));
    assert_eq!(adapter.storage_reads.len(), 0);
    let value = done(adapter.get_storage_at(address, key, Some(Ok(Some(felt(3))))));
    assert!(matches!(value, Ok(v) if v == felt(3)));
    let other = StorageKey::from_u64(17);
    let value = done(adapter.get_storage_at(address, other, Some(Ok(None))));
    assert!(matches!(value, Ok(v) if v == felt(0)));
    assert_eq!(adapter.storage_reads.len(), 1);
    assert_eq!(adapter.storage_reads.get(&address), Some(&other));
}

#[test]
fn storage_that_cannot_be_read_is_reported() {
    let mut adapter = adapter();
    let address = ContractAddress::from_u64(255);
    let key = StorageKey::from_u64(16);
    let text = failure(done(adapter.get_storage_at(address, key, Some(Err("disk on fire".to_string())))));
    assert_eq!(
        text,
        "Failed to retrieve storage value: on=block 7, contract_address=0xff key=0x10: disk on fire"
    );
    assert_eq!(adapter.storage_reads.len(), 0);
}

#[test]
fn nonces_are_read_and_recorded() {
    let mut adapter = adapter();
    let address = ContractAddress::from_u64(255);
    assert!(matches!(adapter.get_nonce_at(address, None), Lookup::AskView));
    let nonce = done(adapter.get_nonce_at(address, Some(Ok(None))));
    assert!(matches!(nonce, Ok(n) if n == Nonce(felt(0))));
    assert_eq!(adapter.nonce_reads.get(&address), Some(&Nonce(felt(0))));
    let nonce = done(adapter.get_nonce_at(address, Some(Ok(Some(felt(4))))));
    assert!(matches!(nonce, Ok(n) if n == Nonce(felt(4))));
    adapter.cache.set_nonce_value(address, Nonce(felt(5)));
    let nonce = done(adapter.get_nonce_at(address, None));
    assert!(matches!(nonce, Ok(n) if n == Nonce(felt(5))));
    assert_eq!(adapter.nonce_reads.get(&address), Some(&Nonce(felt(5))));
    let text = failure(done(
        adapter.get_nonce_at(ContractAddress::from_u64(1), Some(Err("gone".to_string()))),
    ));
    assert_eq!(text, "Failed to retrieve nonce: on=block 7, contract_address=0x1: gone");
}

#[test]
fn a_contract_that_is_not_deployed_has_class_hash_zero() {
    let mut adapter = adapter();
    let address = ContractAddress::from_u64(255);
    assert!(matches!(adapter.get_class_hash_at(address, None), Lookup::AskView));
    let class_hash = done(adapter.get_class_hash_at(address, Some(Ok(None))));
    assert!(matches!(class_hash, Ok(c) if c == ClassHash(felt(0))));
    let class_hash = done(adapter.get_class_hash_at(address, Some(Ok(Some(felt(6))))));
    assert!(matches!(class_hash, Ok(c) if c == ClassHash(felt(6))));
    adapter.cache.writes.class_hashes.insert(address, ClassHash(felt(7)));
    let class_hash = done(adapter.get_class_hash_at(address, None));
    assert!(matches!(class_hash, Ok(c) if c == ClassHash(felt(7))));
    let text = failure(done(
        adapter.get_class_hash_at(ContractAddress::from_u64(0), Some(Err("gone".to_string()))),
    ));
    assert_eq!(text, "Failed to retrieve class_hash: on=block 7, contract_address=0x0: gone");
}

#[test]
fn classes_are_run_if_they_are_declared_and_can_be() {
    let adapter = adapter();
    let class_hash = ClassHash(felt(4096));
    let class = RunnableCompiledClass { handle: 3 };
    assert!(matches!(adapter.get_compiled_class(class_hash, Ok(Some(Some(class)))), Ok(c) if c == class));
    assert!(matches!(
        adapter.get_compiled_class(class_hash, Ok(None)),
        Err(StateError::UndeclaredClassHash(c)) if c == class_hash
    ));
    assert_eq!(
        failure(adapter.get_compiled_class(class_hash, Ok(Some(None)))),
        "Failed to convert class 4096"
    );
    assert_eq!(
        failure(adapter.get_compiled_class(class_hash, Err("gone".to_string()))),
        "Failed to retrieve class: on=block 7, class_hash=0x1000: gone"
    );
}

#[test]
fn a_class_without_a_compiled_form_is_reported() {
    let mut adapter = adapter();
    let class_hash = ClassHash(felt(4096));
    assert!(matches!(adapter.get_compiled_class_hash(class_hash, None), Lookup::AskView));
    let compiled = done(adapter.get_compiled_class_hash(class_hash, Some(Ok(Some(Some(felt(5)))))));
    assert!(matches!(compiled, Ok(c) if c == CompiledClassHash(felt(5))));
    let message = "Class does not have a compiled class hash: on=block 7, class_hash=0x1000";
    assert_eq!(failure(done(adapter.get_compiled_class_hash(class_hash, Some(Ok(None))))), message);
    assert_eq!(failure(done(adapter.get_compiled_class_hash(class_hash, Some(Ok(Some(None)))))), message);
    assert_eq!(
        failure(done(adapter.get_compiled_class_hash(class_hash, Some(Err("gone".to_string()))))),
        "Failed to retrieve class_hash: on=block 7, class_hash=0x1000: gone"
    );
    adapter.cache.writes.compiled_class_hashes.insert(class_hash, CompiledClassHash(felt(6)));
    let compiled = done(adapter.get_compiled_class_hash(class_hash, None));
    assert!(matches!(compiled, Ok(c) if c == CompiledClassHash(felt(6))));
}

#[test]
fn a_message_is_consumed_once_its_transaction_is_there() {
    let adapter = adapter();
    assert!(matches!(
        nonce_done(adapter.is_l1_to_l2_message_nonce_consumed(12, Ok(None), None)),
        Ok(false)
    ));
    let hash = felt(77);
    assert!(matches!(
        adapter.is_l1_to_l2_message_nonce_consumed(12, Ok(Some(hash)), None),
        NonceLookup::FindTransaction(h) if h == hash
    ));
    for exists in [false, true] {
        let consumed =
            nonce_done(adapter.is_l1_to_l2_message_nonce_consumed(12, Ok(Some(hash)), Some(Ok(exists))));
        assert!(matches!(consumed, Ok(c) if c == exists));
    }
    assert_eq!(
        failure(nonce_done(adapter.is_l1_to_l2_message_nonce_consumed(12, Err("gone".to_string()), None))),
        "Failed to l1 handler txn hash by core contract nonce: on=block 7, nonce=12: gone"
    );
    assert_eq!(
        failure(nonce_done(adapter.is_l1_to_l2_message_nonce_consumed(
            u64::MAX,
            Ok(Some(hash)),
            Some(Err("gone".to_string()))
        ))),
        "Failed to l1 handler txn by hash: on=block 7, nonce=18446744073709551615: gone"
    );
}

#[test]
fn large_values_are_shown_in_full() {
    let mut adapter = adapter();
    let class_hash = ClassHash(Felt::new(0x12345, 0xabcdef).unwrap());
    assert_eq!(
        failure(done(adapter.get_compiled_class_hash(class_hash, Some(Ok(None))))),
        "Class does not have a compiled class hash: on=block 7, \
         class_hash=0x1234500000000000000000000000000abcdef"
    );
    adapter.view = String::new();
    let one_more = ClassHash(Felt::new(1, 0).unwrap());
    assert_eq!(
        failure(adapter.get_compiled_class(one_more, Ok(Some(None)))),
        "Failed to convert class 340282366920938463463374607431768211456"
    );
}
