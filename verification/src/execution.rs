//! What executing transactions gives, and the counts over it.
use crate::admission::Arrival;
use crate::append_batch::TransactionReceipt;
use crate::assoc_map::AssocMap;
use crate::executor::{AppendBatchState, ExecutionStats};
use crate::felt::Felt;
use crate::keys::{ClassHash, StorageEntry};
use crate::outside::par_replay;
use crate::state::{changes_of, views, CommitmentStateDiff, StateMaps, StateMapsView};
use crate::transaction::{
    batch_transaction, AccountTransaction, AdditionalTxInfo, BatchToExecute, ContractClass,
    ExecutionDetails, Transaction, TransactionExecutionInfo, TransactionExecutionResult,
};
use vstd::prelude::*;

verus! {

/// What a receipt says that executing the transaction came to.
pub open spec fn info_of(receipt: TransactionReceipt) -> TransactionExecutionInfo {
    TransactionExecutionInfo {
        l2_gas: receipt.resources().total_gas_consumed.l2_gas,
        reverted: receipt.result() is Reverted,
        details: ExecutionDetails::Receipt(receipt),
    }
}

/// Whether `replayed` is what executing the transaction here would have given.
pub open spec fn is_replay_of(
    replayed: TransactionExecutionResult,
    result: (TransactionReceipt, CommitmentStateDiff),
) -> bool {
    replayed matches Ok((info, changes)) && info == info_of(result.0) && changes@ == changes_of(result.1)
}

/// Makes the result of a transaction that was executed elsewhere into one of a transaction
/// executed here.
pub fn replay_result(result: (TransactionReceipt, CommitmentStateDiff)) -> (replayed:
    TransactionExecutionResult)
    ensures
        is_replay_of(replayed, result),
{
    let (receipt, state_diff) = result;
    let info = TransactionExecutionInfo {
        l2_gas: receipt.l2_gas(),
        reverted: receipt.is_reverted(),
        details: ExecutionDetails::Receipt(receipt),
    };
    Ok((info, StateMaps::from_commitment_state_diff(state_diff)))
}

/// Transactions that were executed together, and what each gave.
pub struct ExecutionOutcome {
    pub blockifier_results: Vec<TransactionExecutionResult>,
    /// Whether the block can take no more transactions.
    pub block_full: bool,
    pub executed_txs: BatchToExecute,
}

/// A batch's transactions, as they are executed.
pub open spec fn batch_arrivals(transactions: Seq<AccountTransaction>) -> Seq<Arrival> {
    transactions.map_values(
        |tx: AccountTransaction| (batch_transaction(tx), AdditionalTxInfo { handle: None }),
    )
}

/// Whether the outcome is that of a batch: its transactions, each with the result that came with
/// it, and a full block, so that they are not mixed with others.
pub open spec fn is_outcome_of(outcome: ExecutionOutcome, batch: AppendBatchState) -> bool {
    &&& outcome.block_full
    &&& outcome.executed_txs@ == batch_arrivals(batch.transactions@)
    &&& outcome.blockifier_results@.len() == batch.transaction_results@.len()
    &&& forall|i: int|
        0 <= i < batch.transaction_results@.len() ==> is_replay_of(
            #[trigger] outcome.blockifier_results@[i],
            batch.transaction_results@[i],
        )
}

/// Takes a batch's transactions as executed with the results that came with them.
pub fn replay_batch(batch: AppendBatchState) -> (outcome: ExecutionOutcome)
    ensures
        is_outcome_of(outcome, batch),
{
    let blockifier_results = par_replay(batch.transaction_results);
    let transactions = batch.transactions;
    let mut executed_txs = BatchToExecute::default();
    let mut i: usize = 0;
    while i < transactions.len()
        invariant
            i <= transactions@.len(),
            executed_txs@ == batch_arrivals(transactions@.take(i as int)),
        decreases transactions@.len() - i,
    {
        executed_txs.push(Transaction::from_batch(transactions[i]), AdditionalTxInfo::default());
        i += 1;
        assert(executed_txs@ =~= batch_arrivals(transactions@.take(i as int)));
    }
    assert(transactions@.take(transactions@.len() as int) =~= transactions@);
    ExecutionOutcome { blockifier_results, block_full: true, executed_txs }
}

/// The changes that a transaction made; none, if it could not be executed.
pub open spec fn changes_made(result: TransactionExecutionResult) -> StateMapsView {
    match result {
        Ok((_, changes)) => changes@,
        Err(_) => StateMapsView::empty(),
    }
}

/// The changes that each of the transactions made.
pub fn collect_changes(results: &Vec<TransactionExecutionResult>) -> (changes: Vec<StateMaps>)
    ensures
        views(changes@) == results@.map_values(|result: TransactionExecutionResult| changes_made(result)),
{
    let mut changes: Vec<StateMaps> = Vec::with_capacity(results.len());
    let mut i: usize = 0;
    while i < results.len()
        invariant
            i <= results@.len(),
            changes@.len() == i,
            forall|j: int| 0 <= j < i ==> (#[trigger] changes@[j])@ == changes_made(results@[j]),
        decreases results@.len() - i,
    {
        let made = match &results[i] {
            Ok((_, made)) => made.duplicate(),
            Err(_) => StateMaps::new(),
        };
        changes.push(made);
        i += 1;
    }
    assert(views(changes@) =~= results@.map_values(
        |result: TransactionExecutionResult| changes_made(result),
    ));
    changes
}

/// Takes the executed transactions out of those to execute. Where there are fewer results than
/// transactions, the block was full after the last of them.
pub fn take_executed(
    to_exec: &mut BatchToExecute,
    blockifier_results: Vec<TransactionExecutionResult>,
) -> (outcome: ExecutionOutcome)
    requires
        blockifier_results@.len() <= old(to_exec)@.len(),
    ensures
        outcome.blockifier_results == blockifier_results,
        outcome.block_full == (blockifier_results@.len() < old(to_exec)@.len()),
        outcome.executed_txs@ == old(to_exec)@.take(blockifier_results@.len() as int),
        final(to_exec)@ == old(to_exec)@.skip(blockifier_results@.len() as int),
{
    let block_full = blockifier_results.len() < to_exec.len();
    let executed_txs = to_exec.remove_n_front(blockifier_results.len());
    ExecutionOutcome { blockifier_results, block_full, executed_txs }
}

/// A transaction and what executing it came to, if it could be executed.
pub type Executed = (Transaction, Option<TransactionExecutionInfo>);

/// What executing a transaction came to, if it could be executed.
pub open spec fn came_to(result: TransactionExecutionResult) -> Option<TransactionExecutionInfo> {
    match result {
        Ok((info, _)) => Some(info),
        Err(_) => None,
    }
}

/// Each transaction with what executing it came to, as far as there are both.
pub open spec fn paired(txs: Seq<Arrival>, results: Seq<TransactionExecutionResult>) -> Seq<Executed> {
    let len = if txs.len() < results.len() {
        txs.len()
    } else {
        results.len()
    };
    Seq::new(len, |i: int| (txs[i].0, came_to(results[i])))
}

/// The transaction could be executed.
pub open spec fn was_added(executed: Executed) -> bool {
    executed.1 is Some
}

/// The transaction could be executed, and was reverted.
pub open spec fn was_reverted(executed: Executed) -> bool {
    executed.1 matches Some(info) && info.reverted
}

/// The class that the transaction declared. One that was reverted declared none.
pub open spec fn declared_by(executed: Executed) -> Option<(ClassHash, ContractClass)> {
    match (executed.1, executed.0.declares()) {
        (Some(info), Some(class)) if !info.reverted => Some((class.class_hash, class.contract_class)),
        _ => None,
    }
}

/// How many transactions could be executed.
pub open spec fn n_added(executed: Seq<Executed>) -> nat {
    executed.filter(|e: Executed| was_added(e)).len()
}

/// How many transactions were reverted.
pub open spec fn n_reverted(executed: Seq<Executed>) -> nat {
    executed.filter(|e: Executed| was_reverted(e)).len()
}

/// How many transactions declared a class.
pub open spec fn n_declared(executed: Seq<Executed>) -> nat {
    executed.filter(|e: Executed| declared_by(e) is Some).len()
}

/// The L2 gas that the transactions used that could be executed.
pub open spec fn gas_used(executed: Seq<Executed>) -> nat
    decreases executed.len(),
{
    if executed.len() == 0 {
        0
    } else {
        gas_used(executed.drop_last()) + match executed.last().1 {
            Some(info) => info.l2_gas as nat,
            None => 0,
        }
    }
}

/// The classes that the transactions declared. Of a class that was declared more than once, the
/// last declaration counts.
pub open spec fn declared_classes(executed: Seq<Executed>) -> Map<ClassHash, ContractClass>
    decreases executed.len(),
{
    if executed.len() == 0 {
        Map::empty()
    } else {
        match declared_by(executed.last()) {
            Some((class_hash, class)) => declared_classes(executed.drop_last()).insert(class_hash, class),
            None => declared_classes(executed.drop_last()),
        }
    }
}

/// The counts over transactions that were executed together.
pub open spec fn stats_of(
    txs: Seq<Arrival>,
    results: Seq<TransactionExecutionResult>,
    exec_duration: u128,
) -> ExecutionStats {
    let executed = paired(txs, results);
    ExecutionStats {
        n_batches: 1,
        n_executed: txs.len() as usize,
        n_added_to_block: n_added(executed) as usize,
        n_reverted: n_reverted(executed) as usize,
        n_rejected: (executed.len() - n_added(executed)) as usize,
        declared_classes: n_declared(executed) as usize,
        l2_gas_consumed: gas_used(executed) as u128,
        exec_duration,
    }
}

/// One more transaction adds one to each count that it meets.
proof fn lemma_next_counts(executed: Seq<Executed>, i: int)
    requires
        0 <= i < executed.len(),
    ensures
        n_added(executed.take(i + 1)) == n_added(executed.take(i)) + if was_added(executed[i]) {
            1nat
        } else {
            0
        },
        n_reverted(executed.take(i + 1)) == n_reverted(executed.take(i)) + if was_reverted(executed[i]) {
            1nat
        } else {
            0
        },
        n_declared(executed.take(i + 1)) == n_declared(executed.take(i)) + if declared_by(
            executed[i],
        ) is Some {
            1nat
        } else {
            0
        },
        executed.take(i + 1).drop_last() == executed.take(i),
        executed.take(i + 1).last() == executed[i],
        n_added(executed.take(i)) <= i,
        n_reverted(executed.take(i)) <= i,
        n_declared(executed.take(i)) <= i,
{
    reveal(Seq::filter);
    assert(executed.take(i + 1).drop_last() =~= executed.take(i));
    executed.take(i).lemma_filter_len(|e: Executed| was_added(e));
    executed.take(i).lemma_filter_len(|e: Executed| was_reverted(e));
    executed.take(i).lemma_filter_len(|e: Executed| declared_by(e) is Some);
}

/// The count of transactions that could be executed is zero exactly if none could.
pub proof fn lemma_none_added(executed: Seq<Executed>)
    ensures
        n_added(executed) == 0 <==> forall|i: int|
            0 <= i < executed.len() ==> !was_added(#[trigger] executed[i]),
    decreases executed.len(),
{
    reveal(Seq::filter);
    if executed.len() > 0 {
        let before = executed.drop_last();
        lemma_none_added(before);
        if n_added(executed) == 0 {
            assert forall|i: int| 0 <= i < executed.len() implies !was_added(#[trigger] executed[i]) by {
                if i < before.len() {
                    assert(executed[i] == before[i]);
                }
            }
        } else if n_added(before) > 0 {
            let i = choose|i: int| 0 <= i < before.len() && was_added(#[trigger] before[i]);
            assert(was_added(executed[i]));
        }
    }
}

/// No prefix used more gas than the whole.
proof fn lemma_gas_grows(executed: Seq<Executed>, i: int)
    requires
        0 <= i <= executed.len(),
    ensures
        gas_used(executed.take(i)) <= gas_used(executed),
    decreases executed.len() - i,
{
    if i == executed.len() {
        assert(executed.take(i) =~= executed);
    } else {
        assert(executed.take(i + 1).drop_last() =~= executed.take(i));
        lemma_gas_grows(executed, i + 1);
    }
}

/// Counts what executing transactions gave, and adds the classes that they declared to `declared`.
pub fn tally(
    executed_txs: &BatchToExecute,
    blockifier_results: &Vec<TransactionExecutionResult>,
    exec_duration: u128,
    declared: &mut AssocMap<ClassHash, ContractClass>,
) -> (stats: ExecutionStats)
    requires
        gas_used(paired(executed_txs@, blockifier_results@)) <= u128::MAX,
    ensures
        stats == stats_of(executed_txs@, blockifier_results@, exec_duration),
        stats.n_executed == executed_txs@.len(),
        stats.n_added_to_block == n_added(paired(executed_txs@, blockifier_results@)),
        stats.l2_gas_consumed == gas_used(paired(executed_txs@, blockifier_results@)),
        final(declared)@ == old(declared)@.union_prefer_right(
            declared_classes(paired(executed_txs@, blockifier_results@)),
        ),
{
    let mut stats = ExecutionStats::default();
    stats.n_batches = 1;
    stats.n_executed = executed_txs.len();
    stats.exec_duration = exec_duration;
    let ghost executed = paired(executed_txs@, blockifier_results@);
    let mut i: usize = 0;
    proof {
        reveal(Seq::filter);
        assert(declared@ =~= old(declared)@.union_prefer_right(declared_classes(executed.take(0))));
    }
    while i < executed_txs.txs.len() && i < blockifier_results.len()
        invariant
            executed == paired(executed_txs@, blockifier_results@),
            i <= executed.len() <= executed_txs@.len() <= usize::MAX,
            gas_used(executed) <= u128::MAX,
            stats == (ExecutionStats {
                n_batches: 1,
                n_executed: executed_txs@.len() as usize,
                n_added_to_block: n_added(executed.take(i as int)) as usize,
                n_reverted: n_reverted(executed.take(i as int)) as usize,
                n_rejected: (i - n_added(executed.take(i as int))) as usize,
                declared_classes: n_declared(executed.take(i as int)) as usize,
                l2_gas_consumed: gas_used(executed.take(i as int)) as u128,
                exec_duration,
            }),
            n_added(executed.take(i as int)) <= i,
            n_reverted(executed.take(i as int)) <= i,
            n_declared(executed.take(i as int)) <= i,
            gas_used(executed.take(i as int)) <= u128::MAX,
            declared@ == old(declared)@.union_prefer_right(
                declared_classes(executed.take(i as int)),
            ),
        decreases executed.len() - i,
    {
        proof {
            lemma_next_counts(executed, i as int);
            lemma_gas_grows(executed, i + 1);
        }
        match &blockifier_results[i] {
            Ok((execution_info, _)) => {
                stats.n_added_to_block += 1;
                stats.l2_gas_consumed += execution_info.l2_gas;
                if execution_info.reverted {
                    stats.n_reverted += 1;
                } else if let Some(class) = executed_txs.txs[i].0.declared_contract_class() {
                    stats.declared_classes += 1;
                    declared.insert(class.class_hash, class.contract_class);
                }
            },
            Err(_) => {
                stats.n_rejected += 1;
            },
        }
        i += 1;
        assert(declared@ =~= old(declared)@.union_prefer_right(
            declared_classes(executed.take(i as int)),
        ));
    }
    assert(executed.take(executed.len() as int) =~= executed);
    stats
}

/// The gas that the transactions used that could be executed, if the sum fits.
pub fn total_gas(
    executed_txs: &BatchToExecute,
    blockifier_results: &Vec<TransactionExecutionResult>,
) -> (total: Option<u128>)
    ensures
        total is Some <==> gas_used(paired(executed_txs@, blockifier_results@)) <= u128::MAX,
        total matches Some(gas) ==> gas == gas_used(paired(executed_txs@, blockifier_results@)),
{
    let ghost executed = paired(executed_txs@, blockifier_results@);
    let mut total: u128 = 0;
    let mut i: usize = 0;
    while i < executed_txs.txs.len() && i < blockifier_results.len()
        invariant
            executed == paired(executed_txs@, blockifier_results@),
            i <= executed.len(),
            total == gas_used(executed.take(i as int)),
        decreases executed.len() - i,
    {
        proof {
            lemma_next_counts(executed, i as int);
            lemma_gas_grows(executed, i + 1);
        }
        if let Ok((execution_info, _)) = &blockifier_results[i] {
            match total.checked_add(execution_info.l2_gas) {
                Some(sum) => {
                    total = sum;
                },
                None => {
                    return None;
                },
            }
        }
        i += 1;
    }
    assert(executed.take(executed.len() as int) =~= executed);
    Some(total)
}

/// Of the transactions that were executed, each was added to the block or rejected; of those added,
/// none was both reverted and declared a class.
pub proof fn each_transaction_has_one_fate(
    txs: Seq<Arrival>,
    results: Seq<TransactionExecutionResult>,
)
    ensures
        n_added(paired(txs, results)) <= paired(txs, results).len(),
        n_reverted(paired(txs, results)) + n_declared(paired(txs, results)) <= n_added(
            paired(txs, results),
        ),
{
    let executed = paired(txs, results);
    lemma_fates(executed, executed.len() as int);
    assert(executed.take(executed.len() as int) =~= executed);
}

proof fn lemma_fates(executed: Seq<Executed>, i: int)
    requires
        0 <= i <= executed.len(),
    ensures
        n_added(executed.take(i)) <= i,
        n_reverted(executed.take(i)) + n_declared(executed.take(i)) <= n_added(executed.take(i)),
    decreases i,
{
    if i == 0 {
        reveal(Seq::filter);
    } else {
        lemma_fates(executed, i - 1);
        lemma_next_counts(executed, i - 1);
    }
}

/// A transaction is paired with the result that stands where it stands, and comes to what that result
/// tells; what has no counterpart is left out.
pub proof fn each_transaction_is_paired_with_its_result(
    txs: Seq<Arrival>,
    results: Seq<TransactionExecutionResult>,
)
    ensures
        paired(txs, results).len() <= txs.len(),
        paired(txs, results).len() <= results.len(),
        paired(txs, results).len() == txs.len() || paired(txs, results).len() == results.len(),
        forall|i: int|
            0 <= i < paired(txs, results).len() ==> {
                &&& (#[trigger] paired(txs, results)[i]).0 == txs[i].0
                &&& match results[i] {
                    Ok((info, _)) => paired(txs, results)[i].1 == Some(info),
                    Err(_) => paired(txs, results)[i].1 is None,
                }
            },
{
}

/// What one executed transaction counts for, whatever kind of transaction it is: its gas if it could
/// be executed, and one for each fate that it met.
pub proof fn one_transaction_counts_for_itself(tx: Transaction, info: TransactionExecutionInfo)
    ensures
        ({
            let done = seq![(tx, Some(info))];
            let declares = tx matches Transaction::Account { tx: account, .. }
                && account.declared_class is Some;
            &&& gas_used(done) == info.l2_gas
            &&& n_added(done) == 1
            &&& n_reverted(done) == if info.reverted {
                1nat
            } else {
                0
            }
            &&& n_declared(done) == if declares && !info.reverted {
                1nat
            } else {
                0
            }
        }),
        ({
            let rejected = seq![(tx, None::<TransactionExecutionInfo>)];
            &&& gas_used(rejected) == 0
            &&& n_added(rejected) == 0
            &&& n_reverted(rejected) == 0
            &&& n_declared(rejected) == 0
        }),
{
    let done = seq![(tx, Some(info))];
    let rejected = seq![(tx, None::<TransactionExecutionInfo>)];
    assert(done.drop_last() =~= Seq::<Executed>::empty());
    assert(rejected.drop_last() =~= Seq::<Executed>::empty());
    assert(done.take(1) =~= done && done.take(0) =~= Seq::<Executed>::empty());
    assert(rejected.take(1) =~= rejected && rejected.take(0) =~= Seq::<Executed>::empty());
    reveal(Seq::filter);
    lemma_next_counts(done, 0);
    lemma_next_counts(rejected, 0);
    reveal_with_fuel(gas_used, 2);
}

/// Counts over two rounds of transactions are the sums of the counts over each; no transactions count
/// for nothing.
pub proof fn counts_add_up(a: Seq<Executed>, b: Seq<Executed>)
    ensures
        gas_used(a + b) == gas_used(a) + gas_used(b),
        n_added(a + b) == n_added(a) + n_added(b),
        n_reverted(a + b) == n_reverted(a) + n_reverted(b),
        n_declared(a + b) == n_declared(a) + n_declared(b),
        b.len() == 0 ==> gas_used(b) == 0 && n_added(b) == 0 && n_reverted(b) == 0 && n_declared(b) == 0,
    decreases b.len(),
{
    let all = a + b;
    reveal(Seq::filter);
    if b.len() == 0 {
        assert(all =~= a);
    } else {
        let shorter = b.drop_last();
        counts_add_up(a, shorter);
        assert(all.drop_last() =~= a + shorter);
        assert(all.take(all.len() - 1) =~= a + shorter && all.take(all.len() as int) =~= all);
        assert(b.take(b.len() - 1) =~= shorter && b.take(b.len() as int) =~= b);
        lemma_next_counts(all, all.len() - 1);
        lemma_next_counts(b, b.len() - 1);
    }
}

/// The statistics tell the counts: how many transactions there were, and over those with results how
/// many were added, reverted, rejected, how many declared a class, and the gas that they used.
pub proof fn statistics_tell_the_counts(
    txs: Seq<Arrival>,
    results: Seq<TransactionExecutionResult>,
    exec_duration: u128,
)
    requires
        txs.len() <= usize::MAX,
        gas_used(paired(txs, results)) <= u128::MAX,
    ensures
        ({
            let stats = stats_of(txs, results, exec_duration);
            let executed = paired(txs, results);
            &&& stats.n_batches == 1
            &&& stats.n_executed == txs.len()
            &&& stats.n_added_to_block == n_added(executed)
            &&& stats.n_reverted == n_reverted(executed)
            &&& stats.n_added_to_block + stats.n_rejected == executed.len()
            &&& stats.declared_classes == n_declared(executed)
            &&& stats.l2_gas_consumed == gas_used(executed)
            &&& stats.exec_duration == exec_duration
        }),
{
    each_transaction_has_one_fate(txs, results);
}

/// Whether the transaction declared the class: it is an account's transaction that names the class,
/// could be executed and was not reverted.
pub open spec fn declared_it(executed: Executed, class_hash: ClassHash, class: ContractClass) -> bool {
    &&& executed.1 matches Some(info)
    &&& !info.reverted
    &&& executed.0 matches Transaction::Account { tx, .. }
    &&& tx.declared_class matches Some(declared)
    &&& declared.class_hash == class_hash
    &&& declared.contract_class == class
}

/// The classes that transactions declared are those that some of them declared, each as the last one
/// declared it, and no others.
pub proof fn the_last_declaration_counts(executed: Seq<Executed>, class_hash: ClassHash)
    ensures
        declared_classes(executed).contains_key(class_hash) ==> exists|i: int|
            #![trigger executed[i]]
            0 <= i < executed.len() && declared_it(
                executed[i],
                class_hash,
                declared_classes(executed)[class_hash],
            ) && forall|j: int, class: ContractClass|
                i < j < executed.len() ==> !#[trigger] declared_it(executed[j], class_hash, class),
        !declared_classes(executed).contains_key(class_hash) ==> forall|i: int, class: ContractClass|
            0 <= i < executed.len() ==> !#[trigger] declared_it(executed[i], class_hash, class),
    decreases executed.len(),
{
    if executed.len() > 0 {
        let before = executed.drop_last();
        let last = executed.len() - 1;
        the_last_declaration_counts(before, class_hash);
        assert(forall|i: int| 0 <= i < last ==> #[trigger] executed[i] == before[i]);
        if declared_classes(executed).contains_key(class_hash) {
            let class = declared_classes(executed)[class_hash];
            if declared_by(executed[last]) == Some((class_hash, class)) {
                assert(declared_it(executed[last], class_hash, class));
            } else {
                let i = choose|i: int|
                    #![trigger before[i]]
                    0 <= i < before.len() && declared_it(
                        before[i],
                        class_hash,
                        declared_classes(before)[class_hash],
                    ) && forall|j: int, class: ContractClass|
                        i < j < before.len() ==> !#[trigger] declared_it(before[j], class_hash, class);
                assert(declared_it(executed[i], class_hash, class));
                assert forall|j: int, other: ContractClass|
                    i < j < executed.len() implies !#[trigger] declared_it(
                    executed[j],
                    class_hash,
                    other,
                ) by {
                    if j < last {
                        assert(!declared_it(before[j], class_hash, other));
                    }
                }
            }
        } else {
            assert forall|i: int, class: ContractClass|
                0 <= i < executed.len() implies !#[trigger] declared_it(executed[i], class_hash, class) by {
                if i < last {
                    assert(!declared_it(before[i], class_hash, class));
                }
            }
        }
    }
}

/// The classes that two rounds of transactions declared are those of the first, with those of the
/// second put over them.
pub proof fn declarations_add_up(a: Seq<Executed>, b: Seq<Executed>)
    ensures
        declared_classes(a + b) == declared_classes(a).union_prefer_right(declared_classes(b)),
    decreases b.len(),
{
    if b.len() == 0 {
        assert(a + b =~= a);
    } else {
        declarations_add_up(a, b.drop_last());
        assert((a + b).drop_last() =~= a + b.drop_last());
    }
    assert(declared_classes(a + b) =~= declared_classes(a).union_prefer_right(declared_classes(b)));
}

/// A result from elsewhere comes to what its receipt says: the gas that it used in all, and whether it
/// was reverted. The receipt is kept, and the changes are those that came with it.
pub proof fn a_replayed_result_says_what_its_receipt_says(
    replayed: TransactionExecutionResult,
    receipt: TransactionReceipt,
    changes: CommitmentStateDiff,
)
    requires
        is_replay_of(replayed, (receipt, changes)),
    ensures
        replayed matches Ok((info, made)) && {
            &&& match receipt {
                TransactionReceipt::Invoke(r) => {
                    &&& info.l2_gas == r.execution_resources.total_gas_consumed.l2_gas
                    &&& info.reverted <==> r.execution_result is Reverted
                },
                TransactionReceipt::Declare(r) => {
                    &&& info.l2_gas == r.execution_resources.total_gas_consumed.l2_gas
                    &&& info.reverted <==> r.execution_result is Reverted
                },
                TransactionReceipt::Deploy(r) => {
                    &&& info.l2_gas == r.execution_resources.total_gas_consumed.l2_gas
                    &&& info.reverted <==> r.execution_result is Reverted
                },
                TransactionReceipt::DeployAccount(r) => {
                    &&& info.l2_gas == r.execution_resources.total_gas_consumed.l2_gas
                    &&& info.reverted <==> r.execution_result is Reverted
                },
            }
            &&& info.details == ExecutionDetails::Receipt(receipt)
            &&& made@.nonces == changes.address_to_nonce@
            &&& made@.class_hashes == changes.address_to_class_hash@
            &&& made@.compiled_class_hashes == changes.class_hash_to_compiled_class_hash@
            &&& forall|entry: StorageEntry, value: Felt|
                #[trigger] made@.storage.contains_pair(entry, value) <==> (
                changes.storage_updates@.contains_key(entry.contract_address)
                    && changes.storage_updates@[entry.contract_address]@.contains_pair(entry.key, value))
        },
{
}

/// A replayed batch stands for its transactions, each in its place, charged and validated, with each
/// result in its place; the block takes nothing else.
pub proof fn a_replayed_batch_stands_for_its_transactions(
    outcome: ExecutionOutcome,
    batch: AppendBatchState,
)
    requires
        is_outcome_of(outcome, batch),
    ensures
        outcome.block_full,
        outcome.executed_txs@.len() == batch.transactions@.len(),
        outcome.blockifier_results@.len() == batch.transaction_results@.len(),
        forall|i: int|
            0 <= i < batch.transactions@.len() ==> (#[trigger] outcome.executed_txs@[i]).0
                == batch_transaction(batch.transactions@[i]) && outcome.executed_txs@[i].1.handle is None,
        forall|i: int|
            0 <= i < batch.transaction_results@.len() ==> is_replay_of(
                #[trigger] outcome.blockifier_results@[i],
                batch.transaction_results@[i],
            ),
{
}

/// A transaction that could be executed made the changes that came of it, whether it was reverted or
/// not; one that could not made none.
pub proof fn changes_come_of_execution(info: TransactionExecutionInfo, changes: StateMaps, err: String)
    ensures
        changes_made(Ok((info, changes))) == changes@,
        changes_made(Err(err)) == StateMapsView::empty(),
{
}

} // verus!
