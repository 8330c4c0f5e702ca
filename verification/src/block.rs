//! How a block starts and ends.
use crate::append_batch::GasPrices;
use crate::assoc_map::{distinct_keys, lemma_next_entry, lemma_no_entries, map_of, position, AssocMap};
use crate::cache::{latest, StateCache, StateCacheView};
use crate::executor::{
    BlockExecutionContext, ExecutorInitialCache, ExecutorStateExecuting, ExecutorStateNewBlock,
    ExecutorThreadState, ExecutorThreadStateView,
};
use crate::felt::{patricia_key_upper_bound, Felt};
use crate::keys::{
    convert_felt_to_contract_address, convert_felt_to_storage_key, ClassHash, ContractAddress, Nonce,
    PatriciaKey, StorageEntry, StorageKey,
};
use crate::state::{
    followed_by_all_includes_all, the_last_change_counts, views, what_is_not_changed_stays, StateMaps,
    StateMapsView,
};
use crate::transaction::ContractClass;
use crate::waiting::BlockHash;
use std::collections::HashSet;
use vstd::prelude::*;

verus! {

/// Whether every key can be read as an address.
pub open spec fn keys_in_range<V>(map: Map<Felt, V>) -> bool {
    forall|key: Felt| #[trigger] map.contains_key(key) ==> key.value() < patricia_key_upper_bound()
}

/// Whether the address and the key of every cell can be read as such. An address without cells can
/// be any field element.
pub open spec fn cells_in_range(storage: Map<Felt, AssocMap<Felt, Felt>>) -> bool {
    forall|address: Felt, key: Felt|
        storage.contains_key(address) && #[trigger] storage[address]@.contains_key(key)
            ==> address.value() < patricia_key_upper_bound() && key.value() < patricia_key_upper_bound()
}

/// Whether every address and every key under which a batch names a value can be read as such.
pub open spec fn batch_in_range(cache: ExecutorInitialCache) -> bool {
    &&& cells_in_range(cache.initial_storage@)
    &&& cells_in_range(cache.current_storage@)
    &&& keys_in_range(cache.initial_nonces@)
    &&& keys_in_range(cache.current_nonces@)
}

/// The storage cells, each under its contract's address and its key.
pub open spec fn storage_of(storage: Map<Felt, AssocMap<Felt, Felt>>) -> Map<StorageEntry, Felt> {
    Map::new(
        |entry: StorageEntry|
            storage.contains_key(entry.contract_address.felt())
                && storage[entry.contract_address.felt()]@.contains_key(entry.key.felt()),
        |entry: StorageEntry| storage[entry.contract_address.felt()]@[entry.key.felt()],
    )
}

/// The nonces, each under its contract's address.
pub open spec fn nonces_of(nonces: Map<Felt, Felt>) -> Map<ContractAddress, Nonce> {
    Map::new(
        |address: ContractAddress| nonces.contains_key(address.felt()),
        |address: ContractAddress| Nonce(nonces[address.felt()]),
    )
}

/// Whether values are the first ones or were written since.
#[derive(Clone, Copy, PartialEq, Eq, Structural, Debug)]
enum Seeding {
    Initial,
    Current,
}

/// The cache with storage cells put in.
spec fn with_cells(
    cache: StateCacheView,
    seeding: Seeding,
    cells: Map<StorageEntry, Felt>,
) -> StateCacheView {
    match seeding {
        Seeding::Initial => StateCacheView {
            initial_reads: StateMapsView {
                storage: cache.initial_reads.storage.union_prefer_right(cells),
                ..cache.initial_reads
            },
            ..cache
        },
        Seeding::Current => StateCacheView {
            writes: StateMapsView {
                storage: cache.writes.storage.union_prefer_right(cells),
                ..cache.writes
            },
            ..cache
        },
    }
}

/// The cache with nonces put in.
spec fn with_nonces(
    cache: StateCacheView,
    seeding: Seeding,
    nonces: Map<ContractAddress, Nonce>,
) -> StateCacheView {
    match seeding {
        Seeding::Initial => StateCacheView {
            initial_reads: StateMapsView {
                nonces: cache.initial_reads.nonces.union_prefer_right(nonces),
                ..cache.initial_reads
            },
            ..cache
        },
        Seeding::Current => StateCacheView {
            writes: StateMapsView {
                nonces: cache.writes.nonces.union_prefer_right(nonces),
                ..cache.writes
            },
            ..cache
        },
    }
}

/// Keys made of the same field element are the same key.
proof fn lemma_same_key()
    ensures
        forall|a: PatriciaKey, b: PatriciaKey| #[trigger] a.felt() == #[trigger] b.felt() ==> a == b,
{
    assert forall|a: PatriciaKey, b: PatriciaKey| #[trigger] a.felt() == #[trigger] b.felt() implies a
        == b by {
        a.felt_is_injective(b);
    }
}

/// The cells of one contract.
spec fn cells_at(address: ContractAddress, cells: Map<Felt, Felt>) -> Map<StorageEntry, Felt> {
    Map::new(
        |entry: StorageEntry|
            entry.contract_address == address && cells.contains_key(entry.key.felt()),
        |entry: StorageEntry| cells[entry.key.felt()],
    )
}

/// Puts the cells of one contract into the cache.
fn seed_cells(
    cache: &mut StateCache,
    seeding: Seeding,
    address: ContractAddress,
    cells: &AssocMap<Felt, Felt>,
)
    requires
        keys_in_range(cells@),
    ensures
        final(cache)@ == with_cells(old(cache)@, seeding, cells_at(address, cells@)),
{
    let len: usize = cells.len();
    proof {
        lemma_no_entries(cells.entries());
        assert(cache@ =~= with_cells(
            old(cache)@,
            seeding,
            cells_at(address, map_of(cells.entries().take(0))),
        ));
    }
    let mut i: usize = 0;
    while i < len
        invariant
            i <= len == cells.entries().len(),
            keys_in_range(cells@),
            cache@ == with_cells(
                old(cache)@,
                seeding,
                cells_at(address, map_of(cells.entries().take(i as int))),
            ),
        decreases len - i,
    {
        let (key, value) = cells.entry(i);
        match seeding {
            Seeding::Initial => cache.set_storage_initial_value(
                address,
                convert_felt_to_storage_key(*key),
                *value,
            ),
            Seeding::Current => cache.set_storage_value(
                address,
                convert_felt_to_storage_key(*key),
                *value,
            ),
        }
        proof {
            lemma_same_key();
            lemma_next_entry(cells.entries(), i as int);
            assert(cache@ =~= with_cells(
                old(cache)@,
                seeding,
                cells_at(address, map_of(cells.entries().take(i + 1))),
            ));
        }
        i += 1;
    }
}

/// Puts storage cells into the cache.
fn seed_storage(
    cache: &mut StateCache,
    seeding: Seeding,
    storage: &AssocMap<Felt, AssocMap<Felt, Felt>>,
)
    requires
        cells_in_range(storage@),
    ensures
        final(cache)@ == with_cells(old(cache)@, seeding, storage_of(storage@)),
{
    let len: usize = storage.len();
    proof {
        lemma_no_entries(storage.entries());
        assert(cache@ =~= with_cells(
            old(cache)@,
            seeding,
            storage_of(map_of(storage.entries().take(0))),
        ));
    }
    let mut i: usize = 0;
    while i < len
        invariant
            i <= len == storage.entries().len(),
            cells_in_range(storage@),
            cache@ == with_cells(
                old(cache)@,
                seeding,
                storage_of(map_of(storage.entries().take(i as int))),
            ),
        decreases len - i,
    {
        let (address, cells) = storage.entry(i);
        if cells.len() > 0 {
            assert(cells@.contains_key(cells.entries()[0].0));
            seed_cells(cache, seeding, convert_felt_to_contract_address(*address), cells);
        }
        proof {
            lemma_same_key();
            lemma_no_entries(cells.entries());
            lemma_next_entry(storage.entries(), i as int);
            assert(cache@ =~= with_cells(
                old(cache)@,
                seeding,
                storage_of(map_of(storage.entries().take(i + 1))),
            ));
        }
        i += 1;
    }
}

/// Puts nonces into the cache.
fn seed_nonces(cache: &mut StateCache, seeding: Seeding, nonces: &AssocMap<Felt, Felt>)
    requires
        keys_in_range(nonces@),
    ensures
        final(cache)@ == with_nonces(old(cache)@, seeding, nonces_of(nonces@)),
{
    let len: usize = nonces.len();
    proof {
        lemma_no_entries(nonces.entries());
        assert(cache@ =~= with_nonces(
            old(cache)@,
            seeding,
            nonces_of(map_of(nonces.entries().take(0))),
        ));
    }
    let mut i: usize = 0;
    while i < len
        invariant
            i <= len == nonces.entries().len(),
            keys_in_range(nonces@),
            cache@ == with_nonces(
                old(cache)@,
                seeding,
                nonces_of(map_of(nonces.entries().take(i as int))),
            ),
        decreases len - i,
    {
        let (address, nonce) = nonces.entry(i);
        match seeding {
            Seeding::Initial => cache.set_nonce_initial_value(
                convert_felt_to_contract_address(*address),
                Nonce(*nonce),
            ),
            Seeding::Current => cache.set_nonce_value(
                convert_felt_to_contract_address(*address),
                Nonce(*nonce),
            ),
        }
        proof {
            lemma_same_key();
            lemma_next_entry(nonces.entries(), i as int);
            assert(cache@ =~= with_nonces(
                old(cache)@,
                seeding,
                nonces_of(map_of(nonces.entries().take(i + 1))),
            ));
        }
        i += 1;
    }
}

/// Whether the cell is where a block's hash is kept: in contract 1, under the block's number.
pub open spec fn is_block_hash_entry(entry: StorageEntry, block_n: u64) -> bool {
    entry.contract_address.felt().value() == 1 && entry.key.felt().value() == block_n
}

/// The cell where a block's hash is kept.
pub open spec fn block_hash_entry(block_n: u64) -> StorageEntry {
    choose|entry: StorageEntry| is_block_hash_entry(entry, block_n)
}

/// The only cell where a block's hash is kept is that one.
pub proof fn block_hash_entry_is_unique(entry: StorageEntry, block_n: u64)
    requires
        is_block_hash_entry(entry, block_n),
    ensures
        entry == block_hash_entry(block_n),
{
    let kept = block_hash_entry(block_n);
    assert(is_block_hash_entry(kept, block_n));
    entry.contract_address.felt().value_is_injective(kept.contract_address.felt());
    entry.key.felt().value_is_injective(kept.key.felt());
    lemma_same_key();
}

/// There is such a cell, and it is in contract 1, under the block's number.
pub proof fn block_hash_entry_is_where_it_is_kept(block_n: u64)
    ensures
        block_hash_entry(block_n).contract_address.felt().value() == 1,
        block_hash_entry(block_n).key.felt().value() == block_n,
{
    let entry = StorageEntry {
        contract_address: ContractAddress(PatriciaKey::numbers_are_keys(1)),
        key: StorageKey(PatriciaKey::numbers_are_keys(block_n)),
    };
    assert(is_block_hash_entry(entry, block_n));
}

/// The contract and the key of the cell where a block's hash is kept.
fn block_hash_cell(block_n: u64) -> (cell: (ContractAddress, StorageKey))
    ensures
        (StorageEntry { contract_address: cell.0, key: cell.1 }) == block_hash_entry(block_n),
{
    let contract_address = ContractAddress::from_u64(1);
    let key = StorageKey::from_u64(block_n);
    proof {
        block_hash_entry_is_unique(StorageEntry { contract_address, key }, block_n);
    }
    (contract_address, key)
}

/// What the cache of a block for a batch holds: what the batch read at first as first values, and
/// what it left behind as written.
pub open spec fn batch_cache(cache: ExecutorInitialCache) -> StateCacheView {
    StateCacheView {
        initial_reads: StateMapsView {
            storage: storage_of(cache.initial_storage@),
            nonces: nonces_of(cache.initial_nonces@),
            ..StateMapsView::empty()
        },
        writes: StateMapsView {
            storage: storage_of(cache.current_storage@),
            nonces: nonces_of(cache.current_nonces@),
            ..StateMapsView::empty()
        },
    }
}

/// What the cache of a new block holds: what comes with a batch, if there is one, and the hash of
/// the block ten blocks back, if there is one.
pub open spec fn new_block_cache(
    batch: Option<ExecutorInitialCache>,
    block_hash: Option<BlockHash>,
) -> StateCacheView {
    let cache = match batch {
        Some(batch) => batch_cache(batch),
        None => StateCacheView::empty(),
    };
    match block_hash {
        Some(block) => cache.with_storage(block_hash_entry(block.block_n), block.block_hash),
        None => cache,
    }
}

/// The header with the gas prices that a batch brings, if it brings any.
pub fn override_gas_prices(
    exec_ctx: BlockExecutionContext,
    override_gas_price: Option<GasPrices>,
) -> (ctx: BlockExecutionContext)
    ensures
        ctx == (BlockExecutionContext {
            gas_prices: match override_gas_price {
                Some(prices) => prices,
                None => exec_ctx.gas_prices,
            },
            ..exec_ctx
        }),
{
    let mut ctx = exec_ctx;
    if let Some(prices) = override_gas_price {
        ctx.gas_prices = prices;
    }
    ctx
}

/// Starts a block: its state, and what its cache holds from the start. What is written there is
/// the block's initial state diff.
pub fn create_execution_state(
    state: ExecutorStateNewBlock,
    exec_ctx: BlockExecutionContext,
    executor_initial_cache: Option<ExecutorInitialCache>,
    block_hash: Option<BlockHash>,
) -> (started: (ExecutorStateExecuting, StateCache))
    requires
        executor_initial_cache matches Some(batch) ==> batch_in_range(batch),
    ensures
        started.0@ == (ExecutorThreadStateView::Executing {
            exec_ctx,
            block_hash,
            declared_classes: Map::empty(),
            consumed_l1_to_l2_nonces: state@.consumed(),
        }),
        started.1@ == new_block_cache(executor_initial_cache, block_hash),
{
    let mut cache = StateCache::new();
    if let Some(batch) = &executor_initial_cache {
        seed_storage(&mut cache, Seeding::Initial, &batch.initial_storage);
        seed_storage(&mut cache, Seeding::Current, &batch.current_storage);
        seed_nonces(&mut cache, Seeding::Initial, &batch.initial_nonces);
        seed_nonces(&mut cache, Seeding::Current, &batch.current_nonces);
        assert(cache@ =~= batch_cache(*batch));
    }
    if let Some(block) = block_hash {
        let (contract_address, key) = block_hash_cell(block.block_n);
        cache.set_storage_value(contract_address, key, block.block_hash);
    }
    let executing = ExecutorStateExecuting {
        exec_ctx,
        block_hash,
        declared_classes: AssocMap::new(),
        consumed_l1_to_l2_nonces: state.consumed_l1_to_l2_nonces,
    };
    (executing, cache)
}

/// What an ended block leaves to the state that the next one reads.
pub struct FinishedBlock {
    pub state_diff: StateMaps,
    pub declared_classes: AssocMap<ClassHash, ContractClass>,
    pub consumed_l1_to_l2_nonces: HashSet<u64>,
}

/// The changes that a block leaves: its own, followed by those that the transactions of an appended
/// batch made. The hash that the block holds stays where it is kept, whatever a batch put there.
pub open spec fn left_by(
    state_diff: StateMapsView,
    extend_state_diffs: Seq<StateMapsView>,
    block_hash: Option<BlockHash>,
) -> StateMapsView {
    let diff = state_diff.followed_by_all(extend_state_diffs);
    match block_hash {
        Some(block) if extend_state_diffs.len() > 0 => StateMapsView {
            storage: diff.storage.insert(block_hash_entry(block.block_n), block.block_hash),
            ..diff
        },
        _ => diff,
    }
}

/// Ends a block: what it leaves, and the state that it leaves the executor in.
///
/// `extend_state_diffs` are the changes that the transactions of an appended batch made. They are
/// part of what the block leaves.
pub fn end_block(
    state: ExecutorStateExecuting,
    state_diff: StateMaps,
    extend_state_diffs: &Vec<StateMaps>,
) -> (ended: (FinishedBlock, ExecutorThreadState))
    ensures
        ended.0.state_diff@ == left_by(state_diff@, views(extend_state_diffs@), state.block_hash),
        ended.0.declared_classes == state.declared_classes,
        ended.0.consumed_l1_to_l2_nonces == state.consumed_l1_to_l2_nonces,
        ended.1@ == (ExecutorThreadStateView::NewBlock { consumed_l1_to_l2_nonces: Set::empty() }),
{
    let mut diff = state_diff;
    let ghost later = views(extend_state_diffs@);
    assert(later.take(0) =~= Seq::<StateMapsView>::empty());
    let mut i: usize = 0;
    while i < extend_state_diffs.len()
        invariant
            i <= extend_state_diffs@.len(),
            later == views(extend_state_diffs@),
            diff@ == state_diff@.followed_by_all(later.take(i as int)),
        decreases extend_state_diffs@.len() - i,
    {
        diff.extend(&extend_state_diffs[i]);
        assert(later.take(i + 1).drop_last() =~= later.take(i as int));
        i += 1;
    }
    assert(later.take(extend_state_diffs@.len() as int) =~= later);
    if extend_state_diffs.len() > 0 {
        if let Some(block) = state.block_hash {
            let (contract_address, key) = block_hash_cell(block.block_n);
            diff.storage.insert(StorageEntry { contract_address, key }, block.block_hash);
        }
    }
    let finished = FinishedBlock {
        state_diff: diff,
        declared_classes: state.declared_classes,
        consumed_l1_to_l2_nonces: state.consumed_l1_to_l2_nonces,
    };
    (finished, ExecutorThreadState::initial_state())
}

/// Whether every key can be read as an address.
fn check_keys<V>(map: &AssocMap<Felt, V>) -> (in_range: bool)
    ensures
        in_range == keys_in_range(map@),
{
    let len: usize = map.len();
    let mut i: usize = 0;
    while i < len
        invariant
            i <= len == map.entries().len(),
            forall|j: int|
                0 <= j < i ==> (#[trigger] map.entries()[j]).0.value() < patricia_key_upper_bound(),
        decreases len - i,
    {
        let (key, _) = map.entry(i);
        if PatriciaKey::try_from_felt(*key).is_none() {
            return false;
        }
        i += 1;
    }
    true
}

/// Whether the address and the key of every cell can be read as such.
fn check_cells(storage: &AssocMap<Felt, AssocMap<Felt, Felt>>) -> (in_range: bool)
    ensures
        in_range == cells_in_range(storage@),
{
    let len: usize = storage.len();
    let mut i: usize = 0;
    while i < len
        invariant
            i <= len == storage.entries().len(),
            i > 0 ==> distinct_keys(storage.entries()),
            forall|j: int, key: Felt|
                0 <= j < i && #[trigger] storage.entries()[j].1@.contains_key(key)
                    ==> storage.entries()[j].0.value() < patricia_key_upper_bound() && key.value()
                    < patricia_key_upper_bound(),
        decreases len - i,
    {
        let (address, cells) = storage.entry(i);
        if cells.len() > 0 {
            if PatriciaKey::try_from_felt(*address).is_none() || !check_keys(cells) {
                assert(storage@[*address]@.contains_key(cells.entries()[0].0));
                return false;
            }
        }
        proof {
            lemma_no_entries(cells.entries());
        }
        i += 1;
    }
    proof {
        assert forall|address: Felt, key: Felt|
            storage@.contains_key(address)
                && #[trigger] storage@[address]@.contains_key(key) implies address.value()
            < patricia_key_upper_bound() && key.value() < patricia_key_upper_bound() by {
            let j = position(storage.entries(), address);
            assert(storage.entries()[j].1@.contains_key(key));
        }
    }
    true
}

/// Whether every address and every key under which a batch names a value can be read as such.
pub fn check_batch(batch: &ExecutorInitialCache) -> (in_range: bool)
    ensures
        in_range == batch_in_range(*batch),
{
    check_cells(&batch.initial_storage) && check_cells(&batch.current_storage) && check_keys(
        &batch.initial_nonces,
    ) && check_keys(&batch.current_nonces)
}

/// What a block leaves holds what the transactions of an appended batch changed: for each nonce,
/// class and cell, the last value that one of them gave it. The one exception is the cell where the
/// hash is kept that the block holds.
pub proof fn finished_block_includes_the_batch(
    state_diff: StateMapsView,
    extend_state_diffs: Seq<StateMapsView>,
    block_hash: Option<BlockHash>,
)
    ensures
        ({
            let batch = StateMapsView::empty().followed_by_all(extend_state_diffs);
            let kept = match block_hash {
                Some(block) => batch.storage.remove(block_hash_entry(block.block_n)),
                None => batch.storage,
            };
            left_by(state_diff, extend_state_diffs, block_hash).includes(
                StateMapsView { storage: kept, ..batch },
            )
        }),
{
    followed_by_all_includes_all(state_diff, extend_state_diffs);
}

/// What a block leaves holds the hash that the block started with, if the block's own changes do,
/// whatever a batch put in its place.
pub proof fn finished_block_keeps_the_block_hash(
    state_diff: StateMapsView,
    extend_state_diffs: Seq<StateMapsView>,
    block: BlockHash,
)
    requires
        state_diff.storage.contains_pair(block_hash_entry(block.block_n), block.block_hash),
    ensures
        left_by(state_diff, extend_state_diffs, Some(block)).storage.contains_pair(
            block_hash_entry(block.block_n),
            block.block_hash,
        ),
{
}

/// A block that no batch was appended in leaves its own changes.
pub proof fn finished_block_without_a_batch(state_diff: StateMapsView, block_hash: Option<BlockHash>)
    ensures
        left_by(state_diff, Seq::empty(), block_hash) == state_diff,
{
}

/// From its start a block reads the hash of the block ten blocks back in contract 1, under that
/// block's number, and has it among its changes.
pub proof fn new_block_holds_the_block_hash(batch: Option<ExecutorInitialCache>, block: BlockHash)
    ensures
        new_block_cache(batch, Some(block)).storage_at(block_hash_entry(block.block_n)) == Some(
            block.block_hash,
        ),
        new_block_cache(batch, Some(block)).writes.storage.contains_key(
            block_hash_entry(block.block_n),
        ),
{
}

/// From its start the block of a batch reads each cell and nonce as the batch left it, and those
/// that the batch only read as the batch read them.
pub proof fn new_block_holds_the_batch(
    batch: ExecutorInitialCache,
    block_hash: Option<BlockHash>,
    entry: StorageEntry,
    address: ContractAddress,
)
    requires
        block_hash matches Some(block) ==> entry != block_hash_entry(block.block_n),
    ensures
        new_block_cache(Some(batch), block_hash).storage_at(entry) == latest(
            storage_of(batch.initial_storage@),
            storage_of(batch.current_storage@),
            entry,
        ),
        new_block_cache(Some(batch), block_hash).nonce_at(address) == latest(
            nonces_of(batch.initial_nonces@),
            nonces_of(batch.current_nonces@),
            address,
        ),
{
}

/// Whether the cell is where the hash of the block is kept: in contract 1, under the block's number.
pub open spec fn holds_hash_of(entry: StorageEntry, block_hash: Option<BlockHash>) -> bool {
    block_hash matches Some(block) && entry.contract_address.felt().value() == 1
        && entry.key.felt().value() == block.block_n
}

/// The first values of a block for a batch are exactly what the batch read at first, and what is
/// written from its start exactly what the batch left behind, and the hash in its place: for each
/// cell and each nonce, and nothing else.
pub proof fn a_batch_seeds_its_block(
    batch: ExecutorInitialCache,
    block_hash: Option<BlockHash>,
    entry: StorageEntry,
    value: Felt,
    address: ContractAddress,
    nonce: Felt,
)
    ensures
        ({
            let cache = new_block_cache(Some(batch), block_hash);
            let contract = entry.contract_address.felt();
            let key = entry.key.felt();
            &&& cache.initial_reads.storage.contains_pair(entry, value) <==> (
            batch.initial_storage@.contains_key(contract)
                && batch.initial_storage@[contract]@.contains_pair(key, value))
            &&& cache.writes.storage.contains_pair(entry, value) <==> if holds_hash_of(entry, block_hash) {
                value == block_hash->0.block_hash
            } else {
                batch.current_storage@.contains_key(contract)
                    && batch.current_storage@[contract]@.contains_pair(key, value)
            }
            &&& cache.initial_reads.nonces.contains_pair(address, Nonce(nonce)) <==> (
            batch.initial_nonces@.contains_pair(address.felt(), nonce))
            &&& cache.writes.nonces.contains_pair(address, Nonce(nonce)) <==> (
            batch.current_nonces@.contains_pair(address.felt(), nonce))
            &&& cache.initial_reads.class_hashes.dom() == Set::<ContractAddress>::empty()
            &&& cache.writes.class_hashes.dom() == Set::<ContractAddress>::empty()
            &&& cache.initial_reads.compiled_class_hashes.dom() == Set::<ClassHash>::empty()
            &&& cache.writes.compiled_class_hashes.dom() == Set::<ClassHash>::empty()
        }),
{
    if let Some(block) = block_hash {
        if holds_hash_of(entry, block_hash) {
            block_hash_entry_is_unique(entry, block.block_n);
        } else {
            block_hash_entry_is_where_it_is_kept(block.block_n);
        }
    }
}

/// From its start a block without a batch holds the hash of the block ten blocks back, and nothing
/// else.
pub proof fn a_block_without_a_batch_starts_with_the_hash_alone(
    block_hash: Option<BlockHash>,
    entry: StorageEntry,
    value: Felt,
    address: ContractAddress,
)
    ensures
        ({
            let cache = new_block_cache(None, block_hash);
            &&& !cache.initial_reads.storage.contains_key(entry)
            &&& cache.writes.storage.contains_pair(entry, value) <==> holds_hash_of(entry, block_hash)
                && value == block_hash->0.block_hash
            &&& !cache.initial_reads.nonces.contains_key(address)
            &&& !cache.writes.nonces.contains_key(address)
            &&& !cache.initial_reads.class_hashes.contains_key(address)
            &&& !cache.writes.class_hashes.contains_key(address)
        }),
{
    if let Some(block) = block_hash {
        if holds_hash_of(entry, block_hash) {
            block_hash_entry_is_unique(entry, block.block_n);
        } else {
            block_hash_entry_is_where_it_is_kept(block.block_n);
        }
    }
}

/// What a block leaves is, for each nonce, class and cell, what the last transaction of its batch that
/// changed it gave it, and else what the block itself changed it to; but the cell of the hash that the
/// block holds keeps the hash.
pub proof fn a_block_leaves_the_last_change(
    state_diff: StateMapsView,
    extend_state_diffs: Seq<StateMapsView>,
    block_hash: Option<BlockHash>,
    i: int,
    address: ContractAddress,
    entry: StorageEntry,
    class_hash: ClassHash,
)
    requires
        0 <= i < extend_state_diffs.len(),
    ensures
        ({
            let left = left_by(state_diff, extend_state_diffs, block_hash);
            let later = extend_state_diffs;
            &&& later[i].nonces.contains_key(address) && (forall|j: int|
                i < j < later.len() ==> !(#[trigger] later[j]).nonces.contains_key(address))
                ==> left.nonces.contains_pair(address, later[i].nonces[address])
            &&& later[i].class_hashes.contains_key(address) && (forall|j: int|
                i < j < later.len() ==> !(#[trigger] later[j]).class_hashes.contains_key(address))
                ==> left.class_hashes.contains_pair(address, later[i].class_hashes[address])
            &&& later[i].compiled_class_hashes.contains_key(class_hash) && (forall|j: int|
                i < j < later.len() ==> !(#[trigger] later[j]).compiled_class_hashes.contains_key(
                    class_hash,
                )) ==> left.compiled_class_hashes.contains_pair(
                class_hash,
                later[i].compiled_class_hashes[class_hash],
            )
            &&& !holds_hash_of(entry, block_hash) && later[i].storage.contains_key(entry) && (forall|j: int|
                i < j < later.len() ==> !(#[trigger] later[j]).storage.contains_key(entry))
                ==> left.storage.contains_pair(entry, later[i].storage[entry])
            &&& holds_hash_of(entry, block_hash) ==> left.storage.contains_pair(
                entry,
                block_hash->0.block_hash,
            )
        }),
{
    the_last_change_counts(state_diff, extend_state_diffs, i, address, entry, class_hash);
    if let Some(block) = block_hash {
        block_hash_entry_is_where_it_is_kept(block.block_n);
        if holds_hash_of(entry, block_hash) {
            block_hash_entry_is_unique(entry, block.block_n);
        }
    }
}

/// What no transaction of its batch touches, a block leaves as the block itself changed it, or
/// unchanged; but for the cell of the hash.
pub proof fn a_block_leaves_its_own_changes(
    state_diff: StateMapsView,
    extend_state_diffs: Seq<StateMapsView>,
    block_hash: Option<BlockHash>,
    address: ContractAddress,
    entry: StorageEntry,
    class_hash: ClassHash,
)
    requires
        forall|j: int|
            0 <= j < extend_state_diffs.len() ==> {
                &&& !(#[trigger] extend_state_diffs[j]).nonces.contains_key(address)
                &&& !extend_state_diffs[j].class_hashes.contains_key(address)
                &&& !extend_state_diffs[j].storage.contains_key(entry)
                &&& !extend_state_diffs[j].compiled_class_hashes.contains_key(class_hash)
                &&& !extend_state_diffs[j].declared_contracts.contains_key(class_hash)
            },
        !holds_hash_of(entry, block_hash),
    ensures
        ({
            let left = left_by(state_diff, extend_state_diffs, block_hash);
            &&& forall|nonce: Nonce|
                left.nonces.contains_pair(address, nonce) <==> #[trigger] state_diff.nonces.contains_pair(
                    address,
                    nonce,
                )
            &&& forall|class: ClassHash|
                left.class_hashes.contains_pair(address, class)
                    <==> #[trigger] state_diff.class_hashes.contains_pair(address, class)
            &&& forall|value: Felt|
                left.storage.contains_pair(entry, value) <==> #[trigger] state_diff.storage.contains_pair(
                    entry,
                    value,
                )
            &&& left.compiled_class_hashes.contains_key(class_hash)
                == state_diff.compiled_class_hashes.contains_key(class_hash)
            &&& left.declared_contracts.contains_key(class_hash)
                == state_diff.declared_contracts.contains_key(class_hash)
        }),
{
    what_is_not_changed_stays(state_diff, extend_state_diffs, address, entry, class_hash);
    if let Some(block) = block_hash {
        block_hash_entry_is_where_it_is_kept(block.block_n);
    }
}

/// A batch is in range exactly if the address and the key of each of its values are below 2^251.
pub proof fn a_batch_is_in_range_if_its_values_are(batch: ExecutorInitialCache)
    ensures
        batch_in_range(batch) <==> {
            &&& forall|address: Felt, key: Felt|
                #![trigger batch.initial_storage@[address]@.contains_key(key)]
                batch.initial_storage@.contains_key(address)
                    && batch.initial_storage@[address]@.contains_key(key) ==> address.value()
                    < 0x800000000000000000000000000000000000000000000000000000000000000nat && key.value()
                    < 0x800000000000000000000000000000000000000000000000000000000000000nat
            &&& forall|address: Felt, key: Felt|
                #![trigger batch.current_storage@[address]@.contains_key(key)]
                batch.current_storage@.contains_key(address)
                    && batch.current_storage@[address]@.contains_key(key) ==> address.value()
                    < 0x800000000000000000000000000000000000000000000000000000000000000nat && key.value()
                    < 0x800000000000000000000000000000000000000000000000000000000000000nat
            &&& forall|address: Felt| #[trigger]
                batch.initial_nonces@.contains_key(address) ==> address.value()
                    < 0x800000000000000000000000000000000000000000000000000000000000000nat
            &&& forall|address: Felt| #[trigger]
                batch.current_nonces@.contains_key(address) ==> address.value()
                    < 0x800000000000000000000000000000000000000000000000000000000000000nat
        },
{
}

} // verus!
