//! What the executor waits for: transactions and commands, and the hash of an earlier block.
use crate::append_batch::AppendBatchParams;
use crate::felt::Felt;
use crate::transaction::{AdditionalTxInfo, BatchToExecute, Transaction};
use vstd::prelude::*;

verus! {

/// A command to the executor.
pub enum ExecutorCommand {
    /// Close the current block without waiting for its time.
    CloseBlock,
    /// Append a batch that was executed elsewhere.
    AppendBatch(AppendBatchParams),
}

/// What waiting for transactions came to.
pub enum WaitTxBatchOutcome {
    /// The channel of batches is closed.
    Exit,
    /// A command to execute.
    Command(ExecutorCommand),
    /// Transactions to execute; none, where the time was up or there was no need to wait.
    Batch(BatchToExecute),
}

/// What happened while waiting.
pub enum WaitEvent {
    Command(ExecutorCommand),
    /// No command will come any more.
    CommandsClosed,
    /// The block's time is up.
    DeadlineReached,
    Batch(BatchToExecute),
    /// No batch will come any more.
    BatchesClosed,
}

/// How far waiting for transactions has come.
pub enum WaitTxBatch {
    /// See whether a batch has arrived.
    PollBatches,
    /// See whether a command has arrived.
    PollCommands,
    /// Wait for a command, a batch, or the deadline if there is one.
    Wait,
    /// Waiting is over.
    Done(WaitTxBatchOutcome),
}

/// No transactions.
pub open spec fn is_empty_batch(outcome: WaitTxBatchOutcome) -> bool {
    outcome matches WaitTxBatchOutcome::Batch(batch) && batch@ == Seq::<
        (Transaction, AdditionalTxInfo),
    >::empty()
}

/// Starts waiting for transactions: batches are looked for first.
pub fn wait_take_tx_batch() -> (wait: WaitTxBatch)
    ensures
        wait == WaitTxBatch::PollBatches,
{
    WaitTxBatch::PollBatches
}

/// After looking for a batch: one that has arrived comes first.
pub fn on_batches_polled(batch: Option<BatchToExecute>) -> (next: WaitTxBatch)
    ensures
        match batch {
            Some(batch) => next == WaitTxBatch::Done(WaitTxBatchOutcome::Batch(batch)),
            None => next == WaitTxBatch::PollCommands,
        },
{
    match batch {
        Some(batch) => WaitTxBatch::Done(WaitTxBatchOutcome::Batch(batch)),
        None => WaitTxBatch::PollCommands,
    }
}

/// After looking for a command: one that has arrived is next. Where there is neither and there
/// are transactions to execute already, there is no waiting.
pub fn on_commands_polled(command: Option<ExecutorCommand>, should_wait: bool) -> (next: WaitTxBatch)
    ensures
        match command {
            Some(command) => next == WaitTxBatch::Done(WaitTxBatchOutcome::Command(command)),
            None => if should_wait {
                next == WaitTxBatch::Wait
            } else {
                next matches WaitTxBatch::Done(outcome) && is_empty_batch(outcome)
            },
        },
{
    match command {
        Some(command) => WaitTxBatch::Done(WaitTxBatchOutcome::Command(command)),
        None => if should_wait {
            WaitTxBatch::Wait
        } else {
            WaitTxBatch::Done(WaitTxBatchOutcome::Batch(BatchToExecute::default()))
        },
    }
}

/// After something happened while waiting. Without a deadline only a batch or a command ends the
/// wait, or that no batch will come any more; without commands, a batch or the deadline.
pub fn on_wait_event(event: WaitEvent, deadline: Option<u128>) -> (next: WaitTxBatch)
    ensures
        match event {
            WaitEvent::Command(command) => next == WaitTxBatch::Done(
                WaitTxBatchOutcome::Command(command),
            ),
            WaitEvent::CommandsClosed => next == WaitTxBatch::Wait,
            WaitEvent::DeadlineReached => if deadline is Some {
                next matches WaitTxBatch::Done(outcome) && is_empty_batch(outcome)
            } else {
                next == WaitTxBatch::Wait
            },
            WaitEvent::Batch(batch) => next == WaitTxBatch::Done(WaitTxBatchOutcome::Batch(batch)),
            WaitEvent::BatchesClosed => next == WaitTxBatch::Done(WaitTxBatchOutcome::Exit),
        },
{
    match event {
        WaitEvent::Command(command) => WaitTxBatch::Done(WaitTxBatchOutcome::Command(command)),
        WaitEvent::CommandsClosed => WaitTxBatch::Wait,
        WaitEvent::DeadlineReached => match deadline {
            Some(_) => WaitTxBatch::Done(WaitTxBatchOutcome::Batch(BatchToExecute::default())),
            None => WaitTxBatch::Wait,
        },
        WaitEvent::Batch(batch) => WaitTxBatch::Done(WaitTxBatchOutcome::Batch(batch)),
        WaitEvent::BatchesClosed => WaitTxBatch::Done(WaitTxBatchOutcome::Exit),
    }
}

/// A block's number and hash.
#[derive(Clone, Copy, PartialEq, Eq, Structural, Debug)]
pub struct BlockHash {
    pub block_n: u64,
    pub block_hash: Felt,
}

/// Whether the block is the one ten blocks before block `block_number`. The first ten blocks have
/// none.
pub open spec fn is_ten_blocks_back(block: Option<BlockHash>, block_number: u64) -> bool {
    match block {
        Some(block) => block.block_n + 10 == block_number,
        None => block_number < 10,
    }
}

/// How far waiting for a block's hash has come.
#[derive(PartialEq, Eq, Debug)]
pub enum WaitBlockHash {
    /// Look the block up; after `subscribed`, nothing can happen unnoticed from here on.
    Query { block_n: u64, subscribed: bool },
    /// Subscribe to changes of the chain's tip.
    Subscribe { block_n: u64 },
    /// Wait for the chain's tip to change.
    AwaitTip { block_n: u64 },
    /// The block, if there is one to wait for, or why it could not be looked up.
    Done(Result<Option<BlockHash>, String>),
}

/// Starts waiting for the hash of the block ten blocks before `block_n`. The first ten blocks have
/// none.
pub fn wait_for_hash_of_block_min_10(block_n: u64) -> (wait: WaitBlockHash)
    ensures
        wait.waits_for() == (if block_n >= 10 {
            Some((block_n - 10) as u64)
        } else {
            None
        }),
        wait == (if block_n >= 10 {
            WaitBlockHash::Query { block_n: (block_n - 10) as u64, subscribed: false }
        } else {
            WaitBlockHash::Done(Ok(None))
        }),
{
    match block_n.checked_sub(10) {
        Some(block_n_min_10) => WaitBlockHash::Query { block_n: block_n_min_10, subscribed: false },
        None => WaitBlockHash::Done(Ok(None)),
    }
}

impl WaitBlockHash {
    /// The block whose hash is waited for, or was found.
    pub open spec fn waits_for(self) -> Option<u64> {
        match self {
            WaitBlockHash::Query { block_n, .. } => Some(block_n),
            WaitBlockHash::Subscribe { block_n } => Some(block_n),
            WaitBlockHash::AwaitTip { block_n } => Some(block_n),
            WaitBlockHash::Done(Ok(Some(block))) => Some(block.block_n),
            WaitBlockHash::Done(_) => None,
        }
    }

    /// After looking the block up: a hash ends the wait, and so does a lookup that failed, with that
    /// failure. A block that is not there is subscribed to and looked up once more before the wait
    /// for the tip, as it may have arrived in between.
    pub fn on_queried(self, looked_up: Result<Option<Felt>, String>) -> (next: WaitBlockHash)
        requires
            self is Query,
        ensures
            next == match (looked_up, self) {
                (Err(err), _) => WaitBlockHash::Done(Err(err)),
                (Ok(Some(block_hash)), WaitBlockHash::Query { block_n, .. }) => WaitBlockHash::Done(
                    Ok(Some(BlockHash { block_n, block_hash })),
                ),
                (Ok(None), WaitBlockHash::Query { block_n, subscribed: true }) => {
                    WaitBlockHash::AwaitTip { block_n }
                },
                (Ok(None), WaitBlockHash::Query { block_n, subscribed: false }) => {
                    WaitBlockHash::Subscribe { block_n }
                },
                _ => self,
            },
            looked_up is Ok ==> next.waits_for() == self.waits_for(),
    {
        match self {
            WaitBlockHash::Query { block_n, subscribed } => match looked_up {
                Err(err) => WaitBlockHash::Done(Err(err)),
                Ok(Some(block_hash)) => WaitBlockHash::Done(Ok(Some(BlockHash { block_n, block_hash }))),
                Ok(None) => if subscribed {
                    WaitBlockHash::AwaitTip { block_n }
                } else {
                    WaitBlockHash::Subscribe { block_n }
                },
            },
            other => other,
        }
    }

    /// After subscribing, the block is looked up again.
    pub fn on_subscribed(self) -> (next: WaitBlockHash)
        requires
            self is Subscribe,
        ensures
            self matches WaitBlockHash::Subscribe { block_n } && next == (WaitBlockHash::Query {
                block_n,
                subscribed: true,
            }),
            next.waits_for() == self.waits_for(),
    {
        match self {
            WaitBlockHash::Subscribe { block_n } => WaitBlockHash::Query { block_n, subscribed: true },
            other => other,
        }
    }

    /// After the tip changed, a new subscription is made.
    pub fn on_tip_changed(self) -> (next: WaitBlockHash)
        requires
            self is AwaitTip,
        ensures
            self matches WaitBlockHash::AwaitTip { block_n } && next == (WaitBlockHash::Subscribe {
                block_n,
            }),
            next.waits_for() == self.waits_for(),
    {
        match self {
            WaitBlockHash::AwaitTip { block_n } => WaitBlockHash::Subscribe { block_n },
            other => other,
        }
    }
}

/// An empty batch is a batch, without transactions; neither a command nor the end is one.
pub proof fn an_empty_batch_has_no_transactions(outcome: WaitTxBatchOutcome)
    ensures
        is_empty_batch(outcome) <==> (outcome matches WaitTxBatchOutcome::Batch(batch) && batch@.len() == 0),
{
    if let WaitTxBatchOutcome::Batch(batch) = outcome {
        if batch@.len() == 0 {
            assert(batch@ =~= Seq::<(Transaction, AdditionalTxInfo)>::empty());
        }
    }
}

/// The block ten blocks back is the one whose number is lower by ten; only the first ten blocks have
/// none.
pub proof fn ten_blocks_back_is_ten_numbers_back(block: BlockHash, block_number: u64)
    ensures
        is_ten_blocks_back(Some(block), block_number) <==> block.block_n == block_number - 10,
        is_ten_blocks_back(None, block_number) <==> block_number < 10,
{
}

} // verus!
