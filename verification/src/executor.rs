//! What the executor works with: its configuration, the block it builds, and why it stops.
use crate::append_batch::{GasPrices, TransactionReceipt};
use crate::assoc_map::AssocMap;
use crate::felt::Felt;
use crate::keys::ClassHash;
use crate::state::CommitmentStateDiff;
use crate::transaction::{
    AccountTransaction, BatchToExecute, ContractClass, TransactionExecutionResult,
};
use crate::waiting::BlockHash;
use std::collections::HashSet;
use vstd::prelude::*;

verus! {

/// How blocks are to be produced.
#[derive(Clone, Copy, PartialEq, Eq, Structural, Debug)]
pub struct ExecutorConfig {
    /// How many transactions are executed together at most.
    pub batch_size: usize,
    /// How long a block stays open, in nanoseconds.
    pub block_time: u128,
    /// Whether a block waits for its first transaction.
    pub no_empty_blocks: bool,
}

/// The header of a block that is being built.
#[derive(Clone, Copy, PartialEq, Eq, Structural, Debug)]
pub struct BlockExecutionContext {
    /// The number under which the rest of the header is found by its owner.
    pub handle: u64,
    pub block_number: u64,
    pub gas_prices: GasPrices,
}

/// Why the executor stops before its time. Where an outside step failed, the text says how.
pub enum ExecutorError {
    /// A storage value that a batch read could not be looked up.
    ReadInitialStorage(String),
    /// A nonce that a batch read could not be looked up.
    ReadInitialNonces(String),
    /// A message's nonce is no 64-bit number.
    NonceConversion,
    /// Whether a message was consumed could not be looked up.
    CheckNonce(String),
    /// The header of the new block could not be made.
    CreateContext(String),
    /// The transaction executor could not be made.
    BuildExecutor(String),
    /// The hash of the block ten blocks back could not be read.
    BlockHash(String),
    /// The new block's cache could not be filled.
    SeedCache(String),
    /// The block could not be finalized.
    Finalize(String),
    /// The block's state changes could not be collected.
    StateDiff(String),
    /// The block could not be handed over to the state adapter.
    FinishBlock(String),
}

/// A block has been started.
pub struct ExecutorStateExecuting {
    pub exec_ctx: BlockExecutionContext,
    /// The block ten blocks back, whose hash the block holds. The first ten blocks have none.
    pub block_hash: Option<BlockHash>,
    /// The classes that the block declared so far.
    pub declared_classes: AssocMap<ClassHash, ContractClass>,
    /// The messages that were admitted since the last block ended.
    pub consumed_l1_to_l2_nonces: HashSet<u64>,
}

/// No block has been started since the last one ended.
pub struct ExecutorStateNewBlock {
    /// The messages that were admitted since the last block ended.
    pub consumed_l1_to_l2_nonces: HashSet<u64>,
}

/// Whether there is a block to add to.
///
/// The header of a block holds its gas prices, so it is made as late as possible: when there are
/// to be no empty blocks, only once the block's first transaction has arrived.
pub enum ExecutorThreadState {
    Executing(ExecutorStateExecuting),
    NewBlock(ExecutorStateNewBlock),
}

/// What a thread state is about.
#[verifier::ext_equal]
pub enum ExecutorThreadStateView {
    Executing {
        exec_ctx: BlockExecutionContext,
        block_hash: Option<BlockHash>,
        declared_classes: Map<ClassHash, ContractClass>,
        consumed_l1_to_l2_nonces: Set<u64>,
    },
    NewBlock { consumed_l1_to_l2_nonces: Set<u64> },
}

impl ExecutorThreadStateView {
    /// The messages that were admitted since the last block ended.
    pub open spec fn consumed(self) -> Set<u64> {
        match self {
            ExecutorThreadStateView::Executing { consumed_l1_to_l2_nonces, .. } => consumed_l1_to_l2_nonces,
            ExecutorThreadStateView::NewBlock { consumed_l1_to_l2_nonces } => consumed_l1_to_l2_nonces,
        }
    }

    /// The same, with other messages admitted.
    pub open spec fn with_consumed(self, consumed: Set<u64>) -> ExecutorThreadStateView {
        match self {
            ExecutorThreadStateView::Executing { exec_ctx, block_hash, declared_classes, .. } => {
                ExecutorThreadStateView::Executing {
                    exec_ctx,
                    block_hash,
                    declared_classes,
                    consumed_l1_to_l2_nonces: consumed,
                }
            },
            ExecutorThreadStateView::NewBlock { .. } => ExecutorThreadStateView::NewBlock {
                consumed_l1_to_l2_nonces: consumed,
            },
        }
    }
}

impl View for ExecutorStateExecuting {
    type V = ExecutorThreadStateView;

    open spec fn view(&self) -> ExecutorThreadStateView {
        ExecutorThreadStateView::Executing {
            exec_ctx: self.exec_ctx,
            block_hash: self.block_hash,
            declared_classes: self.declared_classes@,
            consumed_l1_to_l2_nonces: self.consumed_l1_to_l2_nonces@,
        }
    }
}

impl View for ExecutorStateNewBlock {
    type V = ExecutorThreadStateView;

    open spec fn view(&self) -> ExecutorThreadStateView {
        ExecutorThreadStateView::NewBlock {
            consumed_l1_to_l2_nonces: self.consumed_l1_to_l2_nonces@,
        }
    }
}

impl View for ExecutorThreadState {
    type V = ExecutorThreadStateView;

    open spec fn view(&self) -> ExecutorThreadStateView {
        match self {
            ExecutorThreadState::Executing(executing) => executing@,
            ExecutorThreadState::NewBlock(new_block) => new_block@,
        }
    }
}

impl ExecutorThreadState {
    /// No block has been started and no message admitted.
    pub fn initial_state() -> (state: ExecutorThreadState)
        ensures
            state@ == (ExecutorThreadStateView::NewBlock { consumed_l1_to_l2_nonces: Set::empty() }),
    {
        ExecutorThreadState::NewBlock(
            ExecutorStateNewBlock { consumed_l1_to_l2_nonces: HashSet::new() },
        )
    }

    /// The messages that were admitted since the last block ended.
    pub fn consumed_l1_to_l2_nonces(&mut self) -> (consumed: &mut HashSet<u64>)
        ensures
            consumed@ == old(self)@.consumed(),
            final(self)@ == old(self)@.with_consumed(final(consumed)@),
    {
        match self {
            ExecutorThreadState::Executing(s) => &mut s.consumed_l1_to_l2_nonces,
            ExecutorThreadState::NewBlock(s) => &mut s.consumed_l1_to_l2_nonces,
        }
    }
}

/// The transactions of a batch that is to be appended, and what they came to.
pub struct AppendBatchState {
    pub transactions: Vec<AccountTransaction>,
    pub transaction_results: Vec<(TransactionReceipt, CommitmentStateDiff)>,
}

/// The values that a batch read at first, and those that it left behind.
pub struct ExecutorInitialCache {
    pub initial_storage: AssocMap<Felt, AssocMap<Felt, Felt>>,
    pub current_storage: AssocMap<Felt, AssocMap<Felt, Felt>>,
    pub initial_nonces: AssocMap<Felt, Felt>,
    pub current_nonces: AssocMap<Felt, Felt>,
}

/// Counts over the transactions that were executed together.
#[derive(Clone, Copy, PartialEq, Eq, Structural, Debug)]
pub struct ExecutionStats {
    pub n_batches: usize,
    pub n_executed: usize,
    pub n_added_to_block: usize,
    pub n_reverted: usize,
    pub n_rejected: usize,
    pub declared_classes: usize,
    pub l2_gas_consumed: u128,
    /// In nanoseconds.
    pub exec_duration: u128,
}

impl Default for ExecutionStats {
    fn default() -> (stats: ExecutionStats)
        ensures
            stats == (ExecutionStats {
                n_batches: 0,
                n_executed: 0,
                n_added_to_block: 0,
                n_reverted: 0,
                n_rejected: 0,
                declared_classes: 0,
                l2_gas_consumed: 0,
                exec_duration: 0,
            }),
    {
        ExecutionStats {
            n_batches: 0,
            n_executed: 0,
            n_added_to_block: 0,
            n_reverted: 0,
            n_rejected: 0,
            declared_classes: 0,
            l2_gas_consumed: 0,
            exec_duration: 0,
        }
    }
}

/// The transactions that were executed together, what each gave, and the counts over them.
pub struct BatchExecutionResult {
    pub executed_txs: BatchToExecute,
    pub blockifier_results: Vec<TransactionExecutionResult>,
    pub stats: ExecutionStats,
}

/// Putting other messages on record changes the record and nothing else.
pub proof fn the_record_of_messages_stands_apart(state: ExecutorThreadStateView, consumed: Set<u64>)
    ensures
        state.with_consumed(consumed).consumed() == consumed,
        state is NewBlock <==> state.with_consumed(consumed) is NewBlock,
        state matches ExecutorThreadStateView::Executing { exec_ctx, block_hash, declared_classes, .. } ==> (
        state.with_consumed(consumed) matches ExecutorThreadStateView::Executing {
            exec_ctx: same_ctx,
            block_hash: same_hash,
            declared_classes: same_classes,
            ..
        } && same_ctx == exec_ctx && same_hash == block_hash && same_classes == declared_classes),
{
}

} // verus!
