//! State changes.
use crate::assoc_map::{lemma_next_entry, lemma_no_entries, map_of, AssocMap};
use crate::felt::Felt;
use crate::keys::{ClassHash, CompiledClassHash, ContractAddress, Nonce, StorageEntry, StorageKey};
use vstd::prelude::*;

verus! {

/// What a set of state changes maps each address, cell and class to.
#[verifier::ext_equal]
pub struct StateMapsView {
    pub nonces: Map<ContractAddress, Nonce>,
    pub class_hashes: Map<ContractAddress, ClassHash>,
    pub storage: Map<StorageEntry, Felt>,
    pub compiled_class_hashes: Map<ClassHash, CompiledClassHash>,
    pub declared_contracts: Map<ClassHash, bool>,
}

impl StateMapsView {
    /// No changes.
    pub open spec fn empty() -> StateMapsView {
        StateMapsView {
            nonces: Map::empty(),
            class_hashes: Map::empty(),
            storage: Map::empty(),
            compiled_class_hashes: Map::empty(),
            declared_contracts: Map::empty(),
        }
    }

    /// These changes followed by `later` ones.
    pub open spec fn followed_by(self, later: StateMapsView) -> StateMapsView {
        StateMapsView {
            nonces: self.nonces.union_prefer_right(later.nonces),
            class_hashes: self.class_hashes.union_prefer_right(later.class_hashes),
            storage: self.storage.union_prefer_right(later.storage),
            compiled_class_hashes: self.compiled_class_hashes.union_prefer_right(
                later.compiled_class_hashes,
            ),
            declared_contracts: self.declared_contracts.union_prefer_right(later.declared_contracts),
        }
    }

    /// These changes followed by each of `later` in turn.
    pub open spec fn followed_by_all(self, later: Seq<StateMapsView>) -> StateMapsView
        decreases later.len(),
    {
        if later.len() == 0 {
            self
        } else {
            self.followed_by_all(later.drop_last()).followed_by(later.last())
        }
    }

    /// Whether every change of `part` is among these, with the same value.
    pub open spec fn includes(self, part: StateMapsView) -> bool {
        &&& part.nonces.submap_of(self.nonces)
        &&& part.class_hashes.submap_of(self.class_hashes)
        &&& part.storage.submap_of(self.storage)
        &&& part.compiled_class_hashes.submap_of(self.compiled_class_hashes)
        &&& part.declared_contracts.submap_of(self.declared_contracts)
    }
}

/// State changes: nonces and classes of contracts, storage cells, and declared classes.
pub struct StateMaps {
    pub nonces: AssocMap<ContractAddress, Nonce>,
    pub class_hashes: AssocMap<ContractAddress, ClassHash>,
    pub storage: AssocMap<StorageEntry, Felt>,
    pub compiled_class_hashes: AssocMap<ClassHash, CompiledClassHash>,
    pub declared_contracts: AssocMap<ClassHash, bool>,
}

impl View for StateMaps {
    type V = StateMapsView;

    open spec fn view(&self) -> StateMapsView {
        StateMapsView {
            nonces: self.nonces@,
            class_hashes: self.class_hashes@,
            storage: self.storage@,
            compiled_class_hashes: self.compiled_class_hashes@,
            declared_contracts: self.declared_contracts@,
        }
    }
}

/// The changes that each stands for.
pub open spec fn views(maps: Seq<StateMaps>) -> Seq<StateMapsView> {
    maps.map_values(|m: StateMaps| m@)
}

/// The changes that a transaction of an appended batch made, contract by contract.
pub struct CommitmentStateDiff {
    pub address_to_class_hash: AssocMap<ContractAddress, ClassHash>,
    pub address_to_nonce: AssocMap<ContractAddress, Nonce>,
    pub storage_updates: AssocMap<ContractAddress, AssocMap<StorageKey, Felt>>,
    pub class_hash_to_compiled_class_hash: AssocMap<ClassHash, CompiledClassHash>,
}

/// One contract's cells.
pub open spec fn cells_of(contract_address: ContractAddress, cells: Map<StorageKey, Felt>) -> Map<
    StorageEntry,
    Felt,
> {
    Map::new(
        |entry: StorageEntry|
            entry.contract_address == contract_address && cells.contains_key(entry.key),
        |entry: StorageEntry| cells[entry.key],
    )
}

/// The cells of all contracts, each under its contract's address and its key.
pub open spec fn all_cells(updates: Map<ContractAddress, AssocMap<StorageKey, Felt>>) -> Map<
    StorageEntry,
    Felt,
> {
    Map::new(
        |entry: StorageEntry|
            updates.contains_key(entry.contract_address)
                && updates[entry.contract_address]@.contains_key(entry.key),
        |entry: StorageEntry| updates[entry.contract_address]@[entry.key],
    )
}

/// The changes that `diff` tells of; which contracts were declared is not part of them.
pub open spec fn changes_of(diff: CommitmentStateDiff) -> StateMapsView {
    StateMapsView {
        nonces: diff.address_to_nonce@,
        class_hashes: diff.address_to_class_hash@,
        storage: all_cells(diff.storage_updates@),
        compiled_class_hashes: diff.class_hash_to_compiled_class_hash@,
        declared_contracts: Map::empty(),
    }
}

/// Puts one contract's cells among those of others.
fn insert_cells(
    storage: &mut AssocMap<StorageEntry, Felt>,
    contract_address: ContractAddress,
    cells: &AssocMap<StorageKey, Felt>,
)
    ensures
        final(storage)@ == old(storage)@.union_prefer_right(cells_of(contract_address, cells@)),
{
    let len: usize = cells.len();
    proof {
        lemma_no_entries(cells.entries());
        assert(storage@ =~= old(storage)@.union_prefer_right(
            cells_of(contract_address, map_of(cells.entries().take(0))),
        ));
    }
    let mut i: usize = 0;
    while i < len
        invariant
            i <= len == cells.entries().len(),
            storage@ == old(storage)@.union_prefer_right(
                cells_of(contract_address, map_of(cells.entries().take(i as int))),
            ),
        decreases len - i,
    {
        let (key, value) = cells.entry(i);
        storage.insert(StorageEntry { contract_address, key: *key }, *value);
        proof {
            lemma_next_entry(cells.entries(), i as int);
            assert(storage@ =~= old(storage)@.union_prefer_right(
                cells_of(contract_address, map_of(cells.entries().take(i + 1))),
            ));
        }
        i += 1;
    }
}

impl StateMaps {
    /// No changes.
    pub fn new() -> (maps: StateMaps)
        ensures
            maps@ == StateMapsView::empty(),
    {
        StateMaps {
            nonces: AssocMap::new(),
            class_hashes: AssocMap::new(),
            storage: AssocMap::new(),
            compiled_class_hashes: AssocMap::new(),
            declared_contracts: AssocMap::new(),
        }
    }

    /// Makes the changes of `later` after these.
    pub fn extend(&mut self, later: &StateMaps)
        ensures
            final(self)@ == old(self)@.followed_by(later@),
    {
        self.nonces.extend(&later.nonces);
        self.class_hashes.extend(&later.class_hashes);
        self.storage.extend(&later.storage);
        self.compiled_class_hashes.extend(&later.compiled_class_hashes);
        self.declared_contracts.extend(&later.declared_contracts);
    }

    /// The same changes.
    pub fn duplicate(&self) -> (maps: StateMaps)
        ensures
            maps@ == self@,
    {
        StateMaps {
            nonces: self.nonces.duplicate(),
            class_hashes: self.class_hashes.duplicate(),
            storage: self.storage.duplicate(),
            compiled_class_hashes: self.compiled_class_hashes.duplicate(),
            declared_contracts: self.declared_contracts.duplicate(),
        }
    }

    /// A batch transaction's changes; which contracts it declared is not part of them.
    pub fn from_commitment_state_diff(diff: CommitmentStateDiff) -> (maps: StateMaps)
        ensures
            maps@ == changes_of(diff),
    {
        let updates = &diff.storage_updates;
        let len: usize = updates.len();
        let mut storage: AssocMap<StorageEntry, Felt> = AssocMap::new();
        proof {
            lemma_no_entries(updates.entries());
            assert(storage@ =~= all_cells(map_of(updates.entries().take(0))));
        }
        let mut i: usize = 0;
        while i < len
            invariant
                i <= len == updates.entries().len(),
                storage@ == all_cells(map_of(updates.entries().take(i as int))),
            decreases len - i,
        {
            let (contract_address, cells) = updates.entry(i);
            insert_cells(&mut storage, *contract_address, cells);
            proof {
                lemma_next_entry(updates.entries(), i as int);
                assert(storage@ =~= all_cells(map_of(updates.entries().take(i + 1))));
            }
            i += 1;
        }
        StateMaps {
            nonces: diff.address_to_nonce,
            class_hashes: diff.address_to_class_hash,
            storage,
            compiled_class_hashes: diff.class_hash_to_compiled_class_hash,
            declared_contracts: AssocMap::new(),
        }
    }
}

/// Two stages of changes are followed by a third in either grouping.
pub proof fn followed_by_is_associative(a: StateMapsView, b: StateMapsView, c: StateMapsView)
    ensures
        a.followed_by(b).followed_by(c) == a.followed_by(b.followed_by(c)),
{
    assert(a.followed_by(b).followed_by(c) =~= a.followed_by(b.followed_by(c)));
}

/// What was changed last is what counts.
pub proof fn followed_by_includes_later(earlier: StateMapsView, later: StateMapsView)
    ensures
        earlier.followed_by(later).includes(later),
{
}

/// Changes followed by several others are followed by those others taken together, and hold all
/// that these come to.
pub proof fn followed_by_all_includes_all(earlier: StateMapsView, later: Seq<StateMapsView>)
    ensures
        earlier.followed_by_all(later) == earlier.followed_by(
            StateMapsView::empty().followed_by_all(later),
        ),
        earlier.followed_by_all(later).includes(StateMapsView::empty().followed_by_all(later)),
    decreases later.len(),
{
    if later.len() == 0 {
        assert(earlier =~= earlier.followed_by(StateMapsView::empty()));
    } else {
        followed_by_all_includes_all(earlier, later.drop_last());
        followed_by_is_associative(
            earlier,
            StateMapsView::empty().followed_by_all(later.drop_last()),
            later.last(),
        );
    }
    followed_by_includes_later(earlier, StateMapsView::empty().followed_by_all(later));
}

/// The last change to each nonce, class and cell is the one that counts.
pub proof fn the_last_change_counts(
    earlier: StateMapsView,
    later: Seq<StateMapsView>,
    i: int,
    address: ContractAddress,
    entry: StorageEntry,
    class_hash: ClassHash,
)
    requires
        0 <= i < later.len(),
    ensures
        ({
            let all = earlier.followed_by_all(later);
            &&& later[i].nonces.contains_key(address) && (forall|j: int|
                i < j < later.len() ==> !(#[trigger] later[j]).nonces.contains_key(address))
                ==> all.nonces.contains_pair(address, later[i].nonces[address])
            &&& later[i].class_hashes.contains_key(address) && (forall|j: int|
                i < j < later.len() ==> !(#[trigger] later[j]).class_hashes.contains_key(address))
                ==> all.class_hashes.contains_pair(address, later[i].class_hashes[address])
            &&& later[i].storage.contains_key(entry) && (forall|j: int|
                i < j < later.len() ==> !(#[trigger] later[j]).storage.contains_key(entry))
                ==> all.storage.contains_pair(entry, later[i].storage[entry])
            &&& later[i].compiled_class_hashes.contains_key(class_hash) && (forall|j: int|
                i < j < later.len() ==> !(#[trigger] later[j]).compiled_class_hashes.contains_key(
                    class_hash,
                )) ==> all.compiled_class_hashes.contains_pair(
                class_hash,
                later[i].compiled_class_hashes[class_hash],
            )
            &&& later[i].declared_contracts.contains_key(class_hash) && (forall|j: int|
                i < j < later.len() ==> !(#[trigger] later[j]).declared_contracts.contains_key(class_hash))
                ==> all.declared_contracts.contains_pair(
                class_hash,
                later[i].declared_contracts[class_hash],
            )
        }),
    decreases later.len(),
{
    if i < later.len() - 1 {
        let before = later.drop_last();
        assert(forall|j: int| 0 <= j < before.len() ==> #[trigger] before[j] == later[j]);
        assert(later.last() == later[later.len() - 1]);
        the_last_change_counts(earlier, before, i, address, entry, class_hash);
    }
}

/// What no later change touches stays as it was.
pub proof fn what_is_not_changed_stays(
    earlier: StateMapsView,
    later: Seq<StateMapsView>,
    address: ContractAddress,
    entry: StorageEntry,
    class_hash: ClassHash,
)
    ensures
        ({
            let all = earlier.followed_by_all(later);
            &&& (forall|j: int| 0 <= j < later.len() ==> !(#[trigger] later[j]).nonces.contains_key(address))
                ==> all.nonces.contains_key(address) == earlier.nonces.contains_key(address) && (
            earlier.nonces.contains_key(address) ==> all.nonces[address] == earlier.nonces[address])
            &&& (forall|j: int|
                0 <= j < later.len() ==> !(#[trigger] later[j]).class_hashes.contains_key(address))
                ==> all.class_hashes.contains_key(address) == earlier.class_hashes.contains_key(address)
                && (earlier.class_hashes.contains_key(address) ==> all.class_hashes[address]
                == earlier.class_hashes[address])
            &&& (forall|j: int| 0 <= j < later.len() ==> !(#[trigger] later[j]).storage.contains_key(entry))
                ==> all.storage.contains_key(entry) == earlier.storage.contains_key(entry) && (
            earlier.storage.contains_key(entry) ==> all.storage[entry] == earlier.storage[entry])
            &&& (forall|j: int|
                0 <= j < later.len() ==> !(#[trigger] later[j]).compiled_class_hashes.contains_key(
                    class_hash,
                )) ==> all.compiled_class_hashes.contains_key(class_hash)
                == earlier.compiled_class_hashes.contains_key(class_hash) && (
            earlier.compiled_class_hashes.contains_key(class_hash)
                ==> all.compiled_class_hashes[class_hash] == earlier.compiled_class_hashes[class_hash])
            &&& (forall|j: int|
                0 <= j < later.len() ==> !(#[trigger] later[j]).declared_contracts.contains_key(class_hash))
                ==> all.declared_contracts.contains_key(class_hash)
                == earlier.declared_contracts.contains_key(class_hash) && (
            earlier.declared_contracts.contains_key(class_hash) ==> all.declared_contracts[class_hash]
                == earlier.declared_contracts[class_hash])
        }),
    decreases later.len(),
{
    if later.len() > 0 {
        let before = later.drop_last();
        assert(forall|j: int| 0 <= j < before.len() ==> #[trigger] before[j] == later[j]);
        assert(later.last() == later[later.len() - 1]);
        what_is_not_changed_stays(earlier, before, address, entry, class_hash);
    }
}

/// The changes that a transaction of a batch made are those that its diff tells of, each cell under
/// its contract and key; it declares no contracts.
pub proof fn a_diff_tells_each_change(diff: CommitmentStateDiff, entry: StorageEntry, value: Felt)
    ensures
        changes_of(diff).nonces == diff.address_to_nonce@,
        changes_of(diff).class_hashes == diff.address_to_class_hash@,
        changes_of(diff).compiled_class_hashes == diff.class_hash_to_compiled_class_hash@,
        changes_of(diff).storage.contains_pair(entry, value) <==> (
        diff.storage_updates@.contains_key(entry.contract_address)
            && diff.storage_updates@[entry.contract_address]@.contains_pair(entry.key, value)),
        forall|class_hash: ClassHash| !changes_of(diff).declared_contracts.contains_key(class_hash),
{
}

/// No changes change nothing, and several changes are each what it stands for.
pub proof fn no_changes_change_nothing(
    address: ContractAddress,
    entry: StorageEntry,
    class_hash: ClassHash,
    maps: Seq<StateMaps>,
)
    ensures
        !StateMapsView::empty().nonces.contains_key(address),
        !StateMapsView::empty().class_hashes.contains_key(address),
        !StateMapsView::empty().storage.contains_key(entry),
        !StateMapsView::empty().compiled_class_hashes.contains_key(class_hash),
        !StateMapsView::empty().declared_contracts.contains_key(class_hash),
        views(maps).len() == maps.len(),
        forall|i: int| 0 <= i < maps.len() ==> #[trigger] views(maps)[i] == maps[i]@,
{
}

} // verus!
