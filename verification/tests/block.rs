//! How blocks start and end.
use block_production::append_batch::GasPrices;
use block_production::assoc_map::AssocMap;
use block_production::block::{check_batch, create_execution_state, end_block, override_gas_prices};
use block_production::executor::{
    BlockExecutionContext, ExecutorInitialCache, ExecutorStateExecuting, ExecutorStateNewBlock,
    ExecutorThreadState,
};
use block_production::felt::Felt;
use block_production::keys::{ClassHash, ContractAddress, Nonce, StorageEntry, StorageKey};
use block_production::state::StateMaps;
use block_production::transaction::ContractClass;
use block_production::waiting::BlockHash;
use std::collections::HashSet;

fn felt(value: u128) -> Felt {
    Felt::new(0, value).unwrap()
}

fn context() -> BlockExecutionContext {
    BlockExecutionContext { handle: 4, block_number: 15, gas_prices: GasPrices::default() }
}

fn cells(address: Felt, key: Felt, value: u128) -> AssocMap<Felt, AssocMap<Felt, Felt>> {
    let mut inner: AssocMap<Felt, Felt> = AssocMap::new();
    inner.insert(key, felt(value));
    let mut storage: AssocMap<Felt, AssocMap<Felt, Felt>> = AssocMap::new();
    storage.insert(address, inner);
    storage
}

fn nonces(address: Felt, nonce: u128) -> AssocMap<Felt, Felt> {
    let mut nonces: AssocMap<Felt, Felt> = AssocMap::new();
    nonces.insert(address, felt(nonce));
    nonces
}

fn batch() -> ExecutorInitialCache {
    ExecutorInitialCache {
        initial_storage: cells(felt(50), felt(60), 1),
        current_storage: cells(felt(50), felt(61), 2),
        initial_nonces: nonces(felt(50), 3),
        current_nonces: nonces(felt(51), 4),
    }
}

#[test]
fn gas_prices_are_overridden_by_a_batch() {
    let prices = GasPrices { eth_l1_gas_price: 1, strk_l2_gas_price: 6, ..GasPrices::default() };
    assert_eq!(override_gas_prices(context(), None), context());
    assert_eq!(
        override_gas_prices(context(), Some(prices)),
        BlockExecutionContext { gas_prices: prices, ..context() }
    );
}

#[test]
fn a_block_starts_with_the_hash_ten_blocks_back() {
    let state = ExecutorStateNewBlock { consumed_l1_to_l2_nonces: HashSet::from([8]) };
    let hash = BlockHash { block_n: 5, block_hash: felt(99) };
    let (executing, cache) = create_execution_state(state, context(), None, Some(hash));
    assert_eq!(executing.exec_ctx, context());
    assert_eq!(executing.block_hash, Some(hash));
    assert_eq!(executing.declared_classes.len(), 0);
    assert_eq!(executing.consumed_l1_to_l2_nonces, HashSet::from([8]));
    assert_eq!(cache.get_storage_at(ContractAddress::from_u64(1), StorageKey::from_u64(5)), Some(felt(99)));
    assert_eq!(cache.writes.storage.len(), 1);
    assert_eq!(cache.initial_reads.storage.len(), 0);
}

#[test]
fn a_block_starts_with_the_values_of_its_batch() {
    let state = ExecutorStateNewBlock { consumed_l1_to_l2_nonces: HashSet::new() };
    let (_, cache) = create_execution_state(state, context(), Some(batch()), None);
    let address = ContractAddress::from_u64(50);
    assert_eq!(cache.get_storage_at(address, StorageKey::from_u64(60)), Some(felt(1)));
    assert_eq!(cache.get_storage_at(address, StorageKey::from_u64(61)), Some(felt(2)));
    assert_eq!(cache.get_nonce_at(address), Some(Nonce(felt(3))));
    assert_eq!(cache.get_nonce_at(ContractAddress::from_u64(51)), Some(Nonce(felt(4))));
    assert_eq!(cache.writes.storage.len(), 1);
    assert_eq!(cache.writes.nonces.len(), 1);
    assert_eq!(cache.initial_reads.storage.len(), 1);
    assert_eq!(cache.initial_reads.nonces.len(), 1);
}

#[test]
fn the_hash_wins_over_a_value_of_the_batch() {
    let state = ExecutorStateNewBlock { consumed_l1_to_l2_nonces: HashSet::new() };
    let batch = ExecutorInitialCache { current_storage: cells(felt(1), felt(5), 7), ..batch() };
    let hash = BlockHash { block_n: 5, block_hash: felt(99) };
    let (_, cache) = create_execution_state(state, context(), Some(batch), Some(hash));
    assert_eq!(cache.get_storage_at(ContractAddress::from_u64(1), StorageKey::from_u64(5)), Some(felt(99)));
}

#[test]
fn addresses_and_keys_of_a_batch_are_below_two_to_the_251() {
    let bad = Felt::new(1 << 123, 0).unwrap();
    assert!(check_batch(&batch()));
    assert!(!check_batch(&ExecutorInitialCache { initial_storage: cells(bad, felt(1), 1), ..batch() }));
    assert!(!check_batch(&ExecutorInitialCache { initial_storage: cells(felt(1), bad, 1), ..batch() }));
    assert!(!check_batch(&ExecutorInitialCache { current_storage: cells(felt(1), bad, 1), ..batch() }));
    assert!(!check_batch(&ExecutorInitialCache { initial_nonces: nonces(bad, 1), ..batch() }));
    assert!(!check_batch(&ExecutorInitialCache { current_nonces: nonces(bad, 1), ..batch() }));
}

#[test]
fn an_ended_block_leaves_its_changes_and_those_of_its_batch() {
    let mut executing = ExecutorStateExecuting {
        exec_ctx: context(),
        block_hash: None,
        declared_classes: AssocMap::new(),
        consumed_l1_to_l2_nonces: HashSet::from([8, 9]),
    };
    executing.declared_classes.insert(ClassHash(felt(7)), ContractClass { handle: 70 });
    let entry = StorageEntry { contract_address: ContractAddress::from_u64(50), key: StorageKey::from_u64(60) };
    let other = StorageEntry { contract_address: ContractAddress::from_u64(50), key: StorageKey::from_u64(61) };
    let mut diff = StateMaps::new();
    diff.storage.insert(entry, felt(1));
    diff.storage.insert(other, felt(1));
    let mut first = StateMaps::new();
    first.storage.insert(entry, felt(2));
    first.class_hashes.insert(ContractAddress::from_u64(50), ClassHash(felt(7)));
    let mut second = StateMaps::new();
    second.storage.insert(entry, felt(3));
    let (finished, state) = end_block(executing, diff, &vec![first, second]);
    assert_eq!(finished.state_diff.storage.get(&entry), Some(&felt(3)));
    assert_eq!(finished.state_diff.storage.get(&other), Some(&felt(1)));
    assert_eq!(
        finished.state_diff.class_hashes.get(&ContractAddress::from_u64(50)),
        Some(&ClassHash(felt(7)))
    );
    assert_eq!(finished.declared_classes.get(&ClassHash(felt(7))), Some(&ContractClass { handle: 70 }));
    assert_eq!(finished.consumed_l1_to_l2_nonces, HashSet::from([8, 9]));
    match state {
        ExecutorThreadState::NewBlock(new_block) => assert!(new_block.consumed_l1_to_l2_nonces.is_empty()),
        ExecutorThreadState::Executing(_) => panic!("the block was ended"),
    }
}

#[test]
fn an_address_without_cells_can_be_any_field_element() {
    let far = Felt::new(1 << 123, 0).unwrap();
    let mut storage = cells(felt(50), felt(60), 1);
    storage.insert(far, AssocMap::new());
    let mut current_storage: AssocMap<Felt, AssocMap<Felt, Felt>> = AssocMap::new();
    current_storage.insert(far, AssocMap::new());
    let batch = ExecutorInitialCache { initial_storage: storage, current_storage, ..batch() };
    assert!(check_batch(&batch));
    let state = ExecutorStateNewBlock { consumed_l1_to_l2_nonces: HashSet::new() };
    let hash = BlockHash { block_n: 5, block_hash: felt(99) };
    let (_, cache) = create_execution_state(state, context(), Some(batch), Some(hash));
    assert_eq!(cache.initial_reads.storage.len(), 1);
    assert_eq!(
        cache.get_storage_at(ContractAddress::from_u64(50), StorageKey::from_u64(60)),
        Some(felt(1))
    );
    assert_eq!(cache.writes.storage.len(), 1);
    assert_eq!(cache.get_storage_at(ContractAddress::from_u64(1), StorageKey::from_u64(5)), Some(felt(99)));
}

#[test]
fn an_ended_block_keeps_the_hash_that_it_started_with() {
    let ended_with = |extend_state_diffs: Vec<StateMaps>| {
        let executing = ExecutorStateExecuting {
            exec_ctx: context(),
            block_hash: Some(BlockHash { block_n: 5, block_hash: felt(99) }),
            declared_classes: AssocMap::new(),
            consumed_l1_to_l2_nonces: HashSet::new(),
        };
        let mut diff = StateMaps::new();
        diff.storage.insert(hash_cell(), felt(99));
        end_block(executing, diff, &extend_state_diffs).0.state_diff
    };
    let mut changes = StateMaps::new();
    changes.storage.insert(hash_cell(), felt(7));
    changes.nonces.insert(ContractAddress::from_u64(50), Nonce(felt(2)));
    let left = ended_with(vec![changes]);
    assert_eq!(left.storage.get(&hash_cell()), Some(&felt(99)));
    assert_eq!(left.nonces.get(&ContractAddress::from_u64(50)), Some(&Nonce(felt(2))));
    assert_eq!(ended_with(vec![]).storage.get(&hash_cell()), Some(&felt(99)));
}

/// The cell where the hash of block 5 is kept.
fn hash_cell() -> StorageEntry {
    StorageEntry { contract_address: ContractAddress::from_u64(1), key: StorageKey::from_u64(5) }
}
