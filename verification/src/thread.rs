//! The executor: what it does next, after each thing that was done for it.
//!
//! The executor asks for one action at a time. Whoever drives it performs the action and calls the
//! method that takes the action's outcome, which returns the next action.
use crate::admission::{
    admission_failure, admitted, lemma_all_gone_through, seen_after, take_in, Arrival,
};
use crate::append_batch::{AppendBatchParams, GasPrices, TransactionReceipt};
use crate::block::{
    batch_in_range, check_batch, create_execution_state, end_block, left_by, new_block_cache,
    override_gas_prices, FinishedBlock,
};
use crate::cache::StateCache;
use crate::execution::{
    changes_made, collect_changes, declared_classes, gas_used, is_outcome_of, lemma_none_added,
    n_added, paired, replay_batch, stats_of, take_executed, tally, total_gas, was_added,
    ExecutionOutcome,
};
use crate::executor::{
    AppendBatchState, BatchExecutionResult, BlockExecutionContext, ExecutorConfig, ExecutorError,
    ExecutionStats, ExecutorInitialCache, ExecutorThreadState, ExecutorThreadStateView,
};
use crate::history::{is_new, is_step, taken_in, Event};
use crate::state::{changes_of, views, CommitmentStateDiff, StateMaps, StateMapsView};
use crate::transaction::{BatchToExecute, TransactionExecutionResult};
use crate::waiting::{is_ten_blocks_back, BlockHash};
use vstd::prelude::*;

verus! {

/// What the executor waits for to be done.
#[derive(Clone, Copy, PartialEq, Eq, Structural, Debug)]
pub enum Phase {
    /// Transactions or a command are waited for.
    Taking,
    /// A command is being acknowledged.
    Acknowledging,
    /// The header of a new block is being made.
    CreatingContext,
    /// The transaction executor for a new block is being made.
    BuildingExecutor(BlockExecutionContext),
    /// The hash of the block ten blocks back is waited for.
    WaitingForBlockHash(BlockExecutionContext),
    /// The new block's cache is being filled.
    SeedingCache,
    /// The start of the block is being announced.
    SendingStart,
    /// Transactions are being executed.
    Executing,
    /// A batch is to be replayed.
    Replaying,
    /// A batch was replayed.
    Replayed,
    /// The results of executed transactions are being sent.
    SendingBatch { block_full: bool },
    /// The time is being read, to see whether the block is to be closed.
    ReadingClock { block_full: bool },
    /// The block is being finalized.
    Finalizing,
    /// The end of the block is being announced.
    SendingEnd,
    /// The block's state changes are being collected.
    CollectingDiff,
    /// The block is being handed over to the state that the next one reads.
    FinishingBlock,
    /// There is nothing more to do.
    Stopped,
}

/// What is to be done for the executor.
pub enum Action {
    /// Wait for transactions or a command.
    Take {
        /// When to stop waiting; without it, never.
        deadline: Option<u128>,
        /// Whether to wait at all if nothing has arrived.
        should_wait: bool,
    },
    /// Tell whoever gave the command that it was accepted.
    Acknowledge,
    /// Make the header of a new block.
    CreateContext { previous_l2_gas_used: u128 },
    /// Make the transaction executor for a new block.
    BuildExecutor { exec_ctx: BlockExecutionContext },
    /// Wait for the hash of the block ten blocks before this one.
    WaitForBlockHash { block_n: u64 },
    /// Fill the new block's cache.
    SeedCache(StateCache),
    /// Announce the start of the block.
    SendStartNewBlock { exec_ctx: BlockExecutionContext },
    /// Execute the transactions to execute.
    ExecuteTxs,
    /// Replay the batch.
    ReplayBatch,
    /// Send the results of executed transactions.
    SendBatchExecuted(BatchExecutionResult),
    /// Read the time.
    ReadClock,
    /// Finalize the block.
    Finalize,
    /// Announce the end of the block.
    SendEndBlock,
    /// Collect the block's state changes.
    CollectStateDiff,
    /// Hand the block over to the state that the next one reads.
    FinishBlock(FinishedBlock),
    /// Stop.
    Exit(Result<(), ExecutorError>),
}

/// What an executor is about.
#[verifier::ext_equal]
pub struct ExecutorThreadView {
    pub config: ExecutorConfig,
    pub state: ExecutorThreadStateView,
    pub to_exec: Seq<Arrival>,
    pub next_block_deadline: u128,
    pub force_close: bool,
    pub block_empty: bool,
    pub l2_gas_consumed_block: u128,
    pub append_batch_state: Option<AppendBatchState>,
    pub executor_initial_cache: Option<ExecutorInitialCache>,
    pub override_gas_price: Option<GasPrices>,
    pub pending_batch: Option<AppendBatchParams>,
    pub replayed: Option<ExecutionOutcome>,
    pub extend_state_diffs: Seq<StateMapsView>,
    pub phase: Phase,
}

impl ExecutorThreadView {
    /// Whether a block has been started that was not ended yet, as far as the phase tells.
    pub open spec fn phase_has_block(self) -> bool {
        self.phase is SeedingCache || self.phase is SendingStart || self.phase is Executing
            || self.phase is Replaying || self.phase is Replayed || self.phase is SendingBatch
            || self.phase is ReadingClock || self.closes()
    }

    /// Whether a block is about to be started.
    pub open spec fn starts(self) -> bool {
        self.phase is CreatingContext || self.phase is BuildingExecutor
            || self.phase is WaitingForBlockHash
    }

    /// Whether the block is being ended.
    pub open spec fn closes(self) -> bool {
        self.phase is Finalizing || self.phase is SendingEnd || self.phase is CollectingDiff
    }

    /// What holds of the executor between two calls, as long as it has not stopped.
    pub open spec fn wf(self) -> bool {
        !(self.phase is Stopped) ==> {
            // A block that was not started holds no transactions.
            &&& self.state is NewBlock ==> self.block_empty
            // Each block but the first ten holds the hash of the block ten blocks back.
            &&& self.state matches ExecutorThreadStateView::Executing { exec_ctx, block_hash, .. }
                ==> is_ten_blocks_back(block_hash, exec_ctx.block_number)
            // A block that is to be closed is closed before anything else is taken.
            &&& self.phase is Taking ==> !self.force_close
            // The phase and the state agree on whether there is a block.
            &&& self.phase_has_block() ==> self.state is Executing
            &&& self.starts() || self.phase is FinishingBlock ==> self.state is NewBlock
            // A batch gets a block that holds nothing else, and that is closed after it.
            &&& self.append_batch_state is Some ==> {
                &&& self.force_close
                &&& self.block_empty
                &&& self.phase is Acknowledging ==> self.state is NewBlock
                &&& self.phase is Acknowledging || self.starts() || self.phase is SeedingCache
                    || self.phase is SendingStart || self.phase is Replaying
            }
            &&& self.phase is Replaying ==> self.append_batch_state is Some
            &&& self.replayed is Some <==> self.phase is Replayed
            &&& self.replayed matches Some(outcome) ==> outcome.block_full && self.block_empty
            &&& self.extend_state_diffs.len() > 0 ==> {
                &&& self.force_close
                &&& self.pending_batch is None
                &&& self.phase is Replayed || self.phase == (Phase::SendingBatch { block_full: true })
                    || self.phase == (Phase::ReadingClock { block_full: true }) || self.closes()
            }
            // What comes with a batch waits for its block to be started.
            &&& self.executor_initial_cache is Some ==> self.append_batch_state is Some && (
            self.phase is Acknowledging || self.starts())
            &&& self.override_gas_price is Some ==> self.append_batch_state is Some && (
            self.phase is Acknowledging || self.phase is CreatingContext)
            // A batch that came while a block was open waits for its end.
            &&& self.pending_batch is Some ==> self.closes() || self.phase is FinishingBlock
        }
    }

    /// When to stop waiting for transactions: never, where the block waits for its first one.
    pub open spec fn wait_deadline(self) -> Option<u128> {
        if self.block_empty && self.config.no_empty_blocks {
            None
        } else {
            Some(self.next_block_deadline)
        }
    }
}

/// The executor stops.
pub open spec fn stopped(thread: ExecutorThreadView) -> ExecutorThreadView {
    ExecutorThreadView { phase: Phase::Stopped, ..thread }
}

/// After transactions were taken: a block is started if there is none, and else transactions are
/// executed; those of a batch, if there is one, are replayed.
pub open spec fn after_taking(thread: ExecutorThreadView) -> (ExecutorThreadView, Action) {
    match thread.state {
        ExecutorThreadStateView::NewBlock { .. } => (
            ExecutorThreadView { phase: Phase::CreatingContext, ..thread },
            Action::CreateContext { previous_l2_gas_used: thread.l2_gas_consumed_block },
        ),
        ExecutorThreadStateView::Executing { .. } => if thread.append_batch_state is Some {
            (ExecutorThreadView { phase: Phase::Replaying, ..thread }, Action::ReplayBatch)
        } else {
            (ExecutorThreadView { phase: Phase::Executing, ..thread }, Action::ExecuteTxs)
        },
    }
}

/// After transactions arrived: where there are to be no empty blocks, a block that nothing has come
/// for goes on waiting for its first transaction.
pub open spec fn after_arrivals(thread: ExecutorThreadView) -> (ExecutorThreadView, Action) {
    if thread.config.no_empty_blocks && !thread.force_close && thread.state is NewBlock
        && thread.to_exec.len() == 0 {
        next_turn(thread)
    } else {
        after_taking(thread)
    }
}

/// At the start of a turn: transactions are taken, unless there are enough of them.
pub open spec fn next_turn(thread: ExecutorThreadView) -> (ExecutorThreadView, Action) {
    if thread.to_exec.len() < thread.config.batch_size {
        (
            ExecutorThreadView { phase: Phase::Taking, ..thread },
            Action::Take {
                deadline: thread.wait_deadline(),
                should_wait: thread.to_exec.len() == 0,
            },
        )
    } else {
        after_taking(thread)
    }
}

/// A batch is accepted: it gets a block of its own, with the gas prices and the values that it
/// brings, and the block is closed after it.
pub open spec fn accepted(thread: ExecutorThreadView, params: AppendBatchParams) -> ExecutorThreadView {
    ExecutorThreadView {
        force_close: true,
        append_batch_state: Some(
            AppendBatchState {
                transactions: params.transactions,
                transaction_results: params.transaction_results,
            },
        ),
        executor_initial_cache: Some(
            ExecutorInitialCache {
                initial_storage: params.initial_storage,
                current_storage: params.current_storage,
                initial_nonces: params.initial_nonces,
                current_nonces: params.current_nonces,
            },
        ),
        override_gas_price: Some(params.gas_prices),
        pending_batch: None,
        phase: Phase::Acknowledging,
        ..thread
    }
}

/// Executed transactions are added to the block.
pub open spec fn added_to_block(
    thread: ExecutorThreadView,
    txs: Seq<Arrival>,
    results: Seq<TransactionExecutionResult>,
    block_full: bool,
) -> ExecutorThreadView {
    let executed = paired(txs, results);
    ExecutorThreadView {
        state: match thread.state {
            ExecutorThreadStateView::Executing {
                exec_ctx,
                block_hash,
                declared_classes: declared,
                consumed_l1_to_l2_nonces,
            } => ExecutorThreadStateView::Executing {
                exec_ctx,
                block_hash,
                declared_classes: declared.union_prefer_right(declared_classes(executed)),
                consumed_l1_to_l2_nonces,
            },
            state => state,
        },
        block_empty: thread.block_empty && n_added(executed) == 0,
        l2_gas_consumed_block: (thread.l2_gas_consumed_block + gas_used(executed)) as u128,
        phase: if txs.len() > 0 {
            Phase::SendingBatch { block_full }
        } else {
            Phase::ReadingClock { block_full }
        },
        ..thread
    }
}

/// The results are sent, if transactions were executed; else the time is read.
pub open spec fn sends_results(
    action: Action,
    txs: Seq<Arrival>,
    results: Vec<TransactionExecutionResult>,
    exec_duration: u128,
) -> bool {
    if txs.len() > 0 {
        action matches Action::SendBatchExecuted(result) && {
            &&& result.executed_txs@ == txs
            &&& result.blockifier_results == results
            &&& result.stats == stats_of(txs, results@, exec_duration)
        }
    } else {
        action == Action::ReadClock
    }
}

/// Whether the block is to be closed: on command, when it is full, or when its time is up.
pub open spec fn is_to_close(thread: ExecutorThreadView, block_full: bool, now: u128) -> bool {
    thread.force_close || block_full || now >= thread.next_block_deadline
}

/// Adds transactions to blocks, and starts and ends the blocks.
pub struct ExecutorThread {
    pub config: ExecutorConfig,
    pub state: ExecutorThreadState,
    /// The transactions to execute.
    pub to_exec: BatchToExecute,
    /// When the block is to be closed, in nanoseconds.
    pub next_block_deadline: u128,
    /// Whether the block is to be closed at the end of the turn.
    pub force_close: bool,
    /// Whether no transaction was added to the block yet.
    pub block_empty: bool,
    /// The L2 gas that the block's transactions used.
    pub l2_gas_consumed_block: u128,
    /// The batch that is to be replayed.
    pub append_batch_state: Option<AppendBatchState>,
    /// The values that come with a batch.
    pub executor_initial_cache: Option<ExecutorInitialCache>,
    /// The gas prices that come with a batch.
    pub override_gas_price: Option<GasPrices>,
    /// The batch that waits for the open block to be ended.
    pub pending_batch: Option<AppendBatchParams>,
    /// What replaying a batch gave.
    pub replayed: Option<ExecutionOutcome>,
    /// The changes that the transactions of the block's batch made.
    pub extend_state_diffs: Vec<StateMaps>,
    pub phase: Phase,
}

impl View for ExecutorThread {
    type V = ExecutorThreadView;

    open spec fn view(&self) -> ExecutorThreadView {
        ExecutorThreadView {
            config: self.config,
            state: self.state@,
            to_exec: self.to_exec@,
            next_block_deadline: self.next_block_deadline,
            force_close: self.force_close,
            block_empty: self.block_empty,
            l2_gas_consumed_block: self.l2_gas_consumed_block,
            append_batch_state: self.append_batch_state,
            executor_initial_cache: self.executor_initial_cache,
            override_gas_price: self.override_gas_price,
            pending_batch: self.pending_batch,
            replayed: self.replayed,
            extend_state_diffs: views(self.extend_state_diffs@),
            phase: self.phase,
        }
    }
}

impl ExecutorThread {
    /// An executor that has done nothing yet, and its first action.
    pub fn new(config: ExecutorConfig, now: u128) -> (started: (ExecutorThread, Action))
        requires
            now + config.block_time <= u128::MAX,
        ensures
            started.0@.wf(),
            is_new(started.0@),
            (started.0@, started.1) == next_turn(
                ExecutorThreadView {
                    config,
                    state: ExecutorThreadStateView::NewBlock { consumed_l1_to_l2_nonces: Set::empty() },
                    to_exec: Seq::empty(),
                    next_block_deadline: (now + config.block_time) as u128,
                    force_close: false,
                    block_empty: true,
                    l2_gas_consumed_block: 0,
                    append_batch_state: None,
                    executor_initial_cache: None,
                    override_gas_price: None,
                    pending_batch: None,
                    replayed: None,
                    extend_state_diffs: Seq::empty(),
                    phase: Phase::Taking,
                },
            ),
    {
        let mut thread = ExecutorThread {
            config,
            state: ExecutorThreadState::initial_state(),
            to_exec: BatchToExecute::with_capacity(config.batch_size),
            next_block_deadline: now + config.block_time,
            force_close: false,
            block_empty: true,
            l2_gas_consumed_block: 0,
            append_batch_state: None,
            executor_initial_cache: None,
            override_gas_price: None,
            pending_batch: None,
            replayed: None,
            extend_state_diffs: Vec::new(),
            phase: Phase::Taking,
        };
        assert(views(thread.extend_state_diffs@) =~= Seq::<StateMapsView>::empty());
        let action = thread.begin_turn();
        (thread, action)
    }

    /// Stops.
    fn stop(&mut self, outcome: Result<(), ExecutorError>) -> (action: Action)
        ensures
            final(self)@ == stopped(old(self)@),
            action == Action::Exit(outcome),
    {
        self.phase = Phase::Stopped;
        Action::Exit(outcome)
    }

    /// Goes on after transactions were taken.
    fn start_or_execute(&mut self) -> (action: Action)
        ensures
            (final(self)@, action) == after_taking(old(self)@),
    {
        match &self.state {
            ExecutorThreadState::NewBlock(_) => {
                self.phase = Phase::CreatingContext;
                Action::CreateContext { previous_l2_gas_used: self.l2_gas_consumed_block }
            },
            ExecutorThreadState::Executing(_) => {
                if self.append_batch_state.is_some() {
                    self.phase = Phase::Replaying;
                    Action::ReplayBatch
                } else {
                    self.phase = Phase::Executing;
                    Action::ExecuteTxs
                }
            },
        }
    }

    /// Begins a turn.
    fn begin_turn(&mut self) -> (action: Action)
        ensures
            (final(self)@, action) == next_turn(old(self)@),
    {
        if self.to_exec.len() < self.config.batch_size {
            self.phase = Phase::Taking;
            let deadline = if self.block_empty && self.config.no_empty_blocks {
                None
            } else {
                Some(self.next_block_deadline)
            };
            Action::Take { deadline, should_wait: self.to_exec.is_empty() }
        } else {
            self.start_or_execute()
        }
    }

    /// No transactions will come any more, and none waits: while some do, they are executed first.
    pub fn on_batches_closed(&mut self) -> (action: Action)
        requires
            old(self)@.phase is Taking,
            old(self)@.to_exec.len() == 0,
        ensures
            is_step(old(self)@, Event::BatchesClosed, final(self)@),
            final(self)@ == stopped(old(self)@),
            action == Action::Exit(Ok(())),
    {
        self.stop(Ok(()))
    }

    /// Transactions arrived, or none before the deadline. `consumed` tells for each of them that is
    /// a message whether it was consumed in an earlier block.
    pub fn on_batch(&mut self, batch: BatchToExecute, consumed: Vec<Result<bool, String>>) -> (action:
        Action)
        requires
            old(self)@.wf(),
            old(self)@.phase is Taking,
            consumed@.len() == batch@.len(),
        ensures
            final(self)@.wf(),
            is_step(old(self)@, Event::Batch { arrivals: batch@, consumed: consumed@ }, final(self)@),
            match admission_failure(batch@, consumed@) {
                Some(err) => {
                    &&& final(self)@ == stopped(taken_in(old(self)@, batch@, consumed@))
                    &&& action == Action::Exit(Err(err))
                },
                None => (final(self)@, action) == after_arrivals(
                    ExecutorThreadView {
                        state: old(self)@.state.with_consumed(
                            seen_after(old(self)@.state.consumed(), batch@, consumed@),
                        ),
                        to_exec: old(self)@.to_exec + admitted(
                            old(self)@.state.consumed(),
                            batch@,
                            consumed@,
                        ),
                        ..old(self)@
                    },
                ),
            },
    {
        proof {
            if admission_failure(batch@, consumed@) is None {
                lemma_all_gone_through(batch@, consumed@);
                assert(batch@.take(batch@.len() as int) =~= batch@);
                assert(consumed@.take(batch@.len() as int) =~= consumed@);
            }
        }
        match take_in(&mut self.state, &mut self.to_exec, batch, consumed) {
            Ok(()) => {
                let no_block = match &self.state {
                    ExecutorThreadState::Executing(_) => false,
                    ExecutorThreadState::NewBlock(_) => true,
                };
                if self.config.no_empty_blocks && !self.force_close && no_block
                    && self.to_exec.is_empty() {
                    self.begin_turn()
                } else {
                    self.start_or_execute()
                }
            },
            Err(err) => self.stop(Err(err)),
        }
    }

    /// A command came to close the block.
    pub fn on_close_block(&mut self) -> (action: Action)
        requires
            old(self)@.wf(),
            old(self)@.phase is Taking,
        ensures
            final(self)@.wf(),
            is_step(old(self)@, Event::CloseBlock, final(self)@),
            final(self)@ == (ExecutorThreadView {
                force_close: true,
                phase: Phase::Acknowledging,
                ..old(self)@
            }),
            action == Action::Acknowledge,
    {
        self.force_close = true;
        self.phase = Phase::Acknowledging;
        Action::Acknowledge
    }

    /// A command came to append a batch. `storage_read` and `nonces_read` tell whether the values
    /// could be looked up that the batch read; what they are makes no difference.
    ///
    /// A block that is open is ended first.
    pub fn on_append_batch(
        &mut self,
        params: AppendBatchParams,
        storage_read: Result<(), String>,
        nonces_read: Result<(), String>,
    ) -> (action: Action)
        requires
            old(self)@.wf(),
            old(self)@.phase is Taking,
        ensures
            final(self)@.wf(),
            is_step(old(self)@, Event::AppendBatch { params, values_read: storage_read is Ok && nonces_read is Ok }, final(self)@),
            match (storage_read, nonces_read) {
                (Err(err), _) => {
                    &&& final(self)@ == stopped(old(self)@)
                    &&& action == Action::Exit(Err(ExecutorError::ReadInitialStorage(err)))
                },
                (Ok(_), Err(err)) => {
                    &&& final(self)@ == stopped(old(self)@)
                    &&& action == Action::Exit(Err(ExecutorError::ReadInitialNonces(err)))
                },
                (Ok(_), Ok(_)) => if old(self)@.state is Executing {
                    &&& final(self)@ == (ExecutorThreadView {
                        pending_batch: Some(params),
                        phase: Phase::Finalizing,
                        ..old(self)@
                    })
                    &&& action == Action::Finalize
                } else {
                    &&& final(self)@ == accepted(old(self)@, params)
                    &&& action == Action::Acknowledge
                },
            },
    {
        if let Err(err) = storage_read {
            return self.stop(Err(ExecutorError::ReadInitialStorage(err)));
        }
        if let Err(err) = nonces_read {
            return self.stop(Err(ExecutorError::ReadInitialNonces(err)));
        }
        let executing = match &self.state {
            ExecutorThreadState::Executing(_) => true,
            ExecutorThreadState::NewBlock(_) => false,
        };
        if executing {
            self.pending_batch = Some(params);
            self.phase = Phase::Finalizing;
            Action::Finalize
        } else {
            self.accept(params)
        }
    }

    /// Accepts a batch.
    fn accept(&mut self, params: AppendBatchParams) -> (action: Action)
        requires
            old(self)@.pending_batch is None,
        ensures
            final(self)@ == accepted(old(self)@, params),
            action == Action::Acknowledge,
    {
        self.force_close = true;
        self.append_batch_state = Some(
            AppendBatchState {
                transactions: params.transactions,
                transaction_results: params.transaction_results,
            },
        );
        self.executor_initial_cache = Some(
            ExecutorInitialCache {
                initial_storage: params.initial_storage,
                current_storage: params.current_storage,
                initial_nonces: params.initial_nonces,
                current_nonces: params.current_nonces,
            },
        );
        self.override_gas_price = Some(params.gas_prices);
        self.phase = Phase::Acknowledging;
        Action::Acknowledge
    }

    /// The command was acknowledged.
    pub fn on_acknowledged(&mut self) -> (action: Action)
        requires
            old(self)@.wf(),
            old(self)@.phase is Acknowledging,
        ensures
            final(self)@.wf(),
            is_step(old(self)@, Event::Acknowledged, final(self)@),
            (final(self)@, action) == after_taking(old(self)@),
    {
        self.start_or_execute()
    }

    /// The header of a new block was made.
    pub fn on_context(&mut self, context: Result<BlockExecutionContext, String>) -> (action: Action)
        requires
            old(self)@.wf(),
            old(self)@.phase is CreatingContext,
        ensures
            final(self)@.wf(),
            is_step(old(self)@, Event::Context(context.ok()), final(self)@),
            match context {
                Err(err) => {
                    &&& final(self)@ == stopped(old(self)@)
                    &&& action == Action::Exit(Err(ExecutorError::CreateContext(err)))
                },
                Ok(context) => {
                    let exec_ctx = match old(self)@.override_gas_price {
                        Some(gas_prices) => BlockExecutionContext { gas_prices, ..context },
                        None => context,
                    };
                    &&& final(self)@ == (ExecutorThreadView {
                        override_gas_price: None,
                        phase: Phase::BuildingExecutor(exec_ctx),
                        ..old(self)@
                    })
                    &&& action == (Action::BuildExecutor { exec_ctx })
                },
            },
    {
        match context {
            Err(err) => self.stop(Err(ExecutorError::CreateContext(err))),
            Ok(context) => {
                let exec_ctx = override_gas_prices(context, self.override_gas_price.take());
                self.phase = Phase::BuildingExecutor(exec_ctx);
                Action::BuildExecutor { exec_ctx }
            },
        }
    }

    /// The transaction executor for a new block was made.
    pub fn on_executor_built(&mut self, built: Result<(), String>) -> (action: Action)
        requires
            old(self)@.wf(),
            old(self)@.phase is BuildingExecutor,
        ensures
            final(self)@.wf(),
            is_step(old(self)@, Event::ExecutorBuilt(built is Ok), final(self)@),
            match built {
                Err(err) => {
                    &&& final(self)@ == stopped(old(self)@)
                    &&& action == Action::Exit(Err(ExecutorError::BuildExecutor(err)))
                },
                Ok(_) => {
                    let exec_ctx = old(self)@.phase->BuildingExecutor_0;
                    &&& final(self)@ == (ExecutorThreadView {
                        phase: Phase::WaitingForBlockHash(exec_ctx),
                        ..old(self)@
                    })
                    &&& action == (Action::WaitForBlockHash { block_n: exec_ctx.block_number })
                },
            },
    {
        match (built, self.phase) {
            (Err(err), _) => self.stop(Err(ExecutorError::BuildExecutor(err))),
            (Ok(_), Phase::BuildingExecutor(exec_ctx)) => {
                self.phase = Phase::WaitingForBlockHash(exec_ctx);
                Action::WaitForBlockHash { block_n: exec_ctx.block_number }
            },
            (Ok(_), _) => self.stop(Ok(())),
        }
    }

    /// Whether the addresses and keys of the batch that a block is started for, if there is one,
    /// can be read as such.
    pub fn can_start_block(&self) -> (can: bool)
        ensures
            can == (self@.executor_initial_cache matches Some(batch) ==> batch_in_range(batch)),
    {
        match &self.executor_initial_cache {
            Some(batch) => check_batch(batch),
            None => true,
        }
    }

    /// The hash of the block ten blocks back came, or there is no such block. The new block is
    /// started.
    pub fn on_block_hash(&mut self, block_hash: Result<Option<BlockHash>, String>) -> (action: Action)
        requires
            old(self)@.wf(),
            old(self)@.phase is WaitingForBlockHash,
            old(self)@.executor_initial_cache matches Some(batch) ==> batch_in_range(batch),
            block_hash matches Ok(found) ==> is_ten_blocks_back(
                found,
                old(self)@.phase->WaitingForBlockHash_0.block_number,
            ),
        ensures
            final(self)@.wf(),
            is_step(old(self)@, Event::BlockHash(block_hash.ok()), final(self)@),
            match block_hash {
                Err(err) => {
                    &&& final(self)@ == stopped(old(self)@)
                    &&& action == Action::Exit(Err(ExecutorError::BlockHash(err)))
                },
                Ok(block_hash) => {
                    &&& final(self)@ == (ExecutorThreadView {
                        state: ExecutorThreadStateView::Executing {
                            exec_ctx: old(self)@.phase->WaitingForBlockHash_0,
                            block_hash,
                            declared_classes: Map::empty(),
                            consumed_l1_to_l2_nonces: old(self)@.state.consumed(),
                        },
                        l2_gas_consumed_block: 0,
                        executor_initial_cache: None,
                        phase: Phase::SeedingCache,
                        ..old(self)@
                    })
                    &&& action matches Action::SeedCache(cache) && cache@ == new_block_cache(
                        old(self)@.executor_initial_cache,
                        block_hash,
                    )
                },
            },
    {
        let block_hash = match block_hash {
            Err(err) => {
                return self.stop(Err(ExecutorError::BlockHash(err)));
            },
            Ok(block_hash) => block_hash,
        };
        let mut state = ExecutorThreadState::initial_state();
        core::mem::swap(&mut state, &mut self.state);
        match (state, self.phase) {
            (ExecutorThreadState::NewBlock(new_block), Phase::WaitingForBlockHash(exec_ctx)) => {
                let (executing, cache) = create_execution_state(
                    new_block,
                    exec_ctx,
                    self.executor_initial_cache.take(),
                    block_hash,
                );
                self.state = ExecutorThreadState::Executing(executing);
                self.l2_gas_consumed_block = 0;
                self.phase = Phase::SeedingCache;
                Action::SeedCache(cache)
            },
            _ => self.stop(Ok(())),
        }
    }

    /// The new block's cache was filled.
    pub fn on_cache_seeded(&mut self, seeded: Result<(), String>) -> (action: Action)
        requires
            old(self)@.wf(),
            old(self)@.phase is SeedingCache,
        ensures
            final(self)@.wf(),
            is_step(old(self)@, Event::CacheSeeded(seeded is Ok), final(self)@),
            match seeded {
                Err(err) => {
                    &&& final(self)@ == stopped(old(self)@)
                    &&& action == Action::Exit(Err(ExecutorError::SeedCache(err)))
                },
                Ok(_) => {
                    &&& final(self)@ == (ExecutorThreadView {
                        phase: Phase::SendingStart,
                        ..old(self)@
                    })
                    &&& action == (Action::SendStartNewBlock {
                        exec_ctx: old(self)@.state->Executing_exec_ctx,
                    })
                },
            },
    {
        if let Err(err) = seeded {
            return self.stop(Err(ExecutorError::SeedCache(err)));
        }
        match &self.state {
            ExecutorThreadState::Executing(executing) => {
                let exec_ctx = executing.exec_ctx;
                self.phase = Phase::SendingStart;
                Action::SendStartNewBlock { exec_ctx }
            },
            ExecutorThreadState::NewBlock(_) => self.stop(Ok(())),
        }
    }

    /// The start of the block was announced, or nobody listens any more.
    pub fn on_start_sent(&mut self, sent: bool) -> (action: Action)
        requires
            old(self)@.wf(),
            old(self)@.phase is SendingStart,
        ensures
            final(self)@.wf(),
            is_step(old(self)@, Event::StartSent(sent), final(self)@),
            if sent {
                (final(self)@, action) == after_taking(old(self)@)
            } else {
                &&& final(self)@ == stopped(old(self)@)
                &&& action == Action::Exit(Ok(()))
            },
    {
        if sent {
            self.start_or_execute()
        } else {
            self.stop(Ok(()))
        }
    }

    /// Whether transactions can be added to the block with these results: there are no more
    /// results than transactions, and the block's gas can be counted.
    pub fn can_add(&self, results: &Vec<TransactionExecutionResult>) -> (can: bool)
        ensures
            can == (results@.len() <= self@.to_exec.len() && self@.l2_gas_consumed_block + gas_used(
                paired(self@.to_exec.take(results@.len() as int), results@),
            ) <= u128::MAX),
    {
        if results.len() > self.to_exec.len() {
            return false;
        }
        assert(paired(self@.to_exec.take(results@.len() as int), results@) =~= paired(
            self@.to_exec,
            results@,
        ));
        match total_gas(&self.to_exec, results) {
            Some(gas) => self.l2_gas_consumed_block.checked_add(gas).is_some(),
            None => false,
        }
    }

    /// Transactions were executed: as many as there are results, from the first of those to execute
    /// on. The others wait for the next block, as this one is full.
    pub fn on_executed(&mut self, results: Vec<TransactionExecutionResult>, exec_duration: u128) -> (action:
        Action)
        requires
            old(self)@.wf(),
            old(self)@.phase is Executing,
            results@.len() <= old(self)@.to_exec.len(),
            old(self)@.l2_gas_consumed_block + gas_used(
                paired(old(self)@.to_exec.take(results@.len() as int), results@),
            ) <= u128::MAX,
        ensures
            final(self)@.wf(),
            is_step(old(self)@, Event::Executed { results: results@ }, final(self)@),
            final(self)@ == added_to_block(
                ExecutorThreadView {
                    to_exec: old(self)@.to_exec.skip(results@.len() as int),
                    ..old(self)@
                },
                old(self)@.to_exec.take(results@.len() as int),
                results@,
                results@.len() < old(self)@.to_exec.len(),
            ),
            sends_results(
                action,
                old(self)@.to_exec.take(results@.len() as int),
                results,
                exec_duration,
            ),
    {
        let outcome = take_executed(&mut self.to_exec, results);
        self.add_to_block(outcome, exec_duration)
    }

    /// Replays the batch: its transactions count as executed with the results that came with them.
    pub fn replay(&mut self)
        requires
            old(self)@.wf(),
            old(self)@.phase is Replaying,
        ensures
            final(self)@.wf(),
            is_step(old(self)@, Event::Replay { outcome: final(self)@.replayed->0 }, final(self)@),
            final(self)@ == (ExecutorThreadView {
                append_batch_state: None,
                replayed: final(self)@.replayed,
                extend_state_diffs: old(self)@.append_batch_state->0.transaction_results@.map_values(
                    |result: (TransactionReceipt, CommitmentStateDiff)| changes_of(result.1),
                ),
                phase: Phase::Replayed,
                ..old(self)@
            }),
            final(self)@.replayed matches Some(outcome) && is_outcome_of(
                outcome,
                old(self)@.append_batch_state->0,
            ),
    {
        if let Some(batch) = self.append_batch_state.take() {
            let ghost results = batch.transaction_results@;
            let outcome = replay_batch(batch);
            let extend_state_diffs = collect_changes(&outcome.blockifier_results);
            assert(views(extend_state_diffs@) =~= results.map_values(
                |result: (TransactionReceipt, CommitmentStateDiff)| changes_of(result.1),
            )) by {
                assert forall|i: int| 0 <= i < results.len() implies changes_made(
                    outcome.blockifier_results@[i],
                ) == changes_of(results[i].1) by {}
            }
            self.extend_state_diffs = extend_state_diffs;
            self.replayed = Some(outcome);
            self.phase = Phase::Replayed;
        }
    }

    /// Whether the replayed transactions can be added to the block: the block's gas can be counted.
    pub fn can_add_replayed(&self) -> (can: bool)
        ensures
            can == (self@.replayed matches Some(outcome) ==> self@.l2_gas_consumed_block + gas_used(
                paired(outcome.executed_txs@, outcome.blockifier_results@),
            ) <= u128::MAX),
    {
        match &self.replayed {
            Some(outcome) => match total_gas(&outcome.executed_txs, &outcome.blockifier_results) {
                Some(gas) => self.l2_gas_consumed_block.checked_add(gas).is_some(),
                None => false,
            },
            None => true,
        }
    }

    /// The batch was replayed.
    pub fn on_replayed(&mut self, exec_duration: u128) -> (action: Action)
        requires
            old(self)@.wf(),
            old(self)@.phase is Replayed,
            old(self)@.replayed matches Some(outcome) ==> old(self)@.l2_gas_consumed_block + gas_used(
                paired(outcome.executed_txs@, outcome.blockifier_results@),
            ) <= u128::MAX,
        ensures
            final(self)@.wf(),
            is_step(old(self)@, Event::Replayed, final(self)@),
            old(self)@.replayed matches Some(outcome) && {
                &&& final(self)@ == added_to_block(
                    ExecutorThreadView { replayed: None, ..old(self)@ },
                    outcome.executed_txs@,
                    outcome.blockifier_results@,
                    outcome.block_full,
                )
                &&& sends_results(
                    action,
                    outcome.executed_txs@,
                    outcome.blockifier_results,
                    exec_duration,
                )
            },
    {
        match self.replayed.take() {
            Some(outcome) => self.add_to_block(outcome, exec_duration),
            None => self.stop(Ok(())),
        }
    }

    /// Adds executed transactions to the block.
    fn add_to_block(&mut self, outcome: ExecutionOutcome, exec_duration: u128) -> (action: Action)
        requires
            old(self)@.state is Executing,
            old(self)@.l2_gas_consumed_block + gas_used(
                paired(outcome.executed_txs@, outcome.blockifier_results@),
            ) <= u128::MAX,
        ensures
            final(self)@ == added_to_block(
                old(self)@,
                outcome.executed_txs@,
                outcome.blockifier_results@,
                outcome.block_full,
            ),
            sends_results(
                action,
                outcome.executed_txs@,
                outcome.blockifier_results,
                exec_duration,
            ),
    {
        let ExecutionOutcome { blockifier_results, block_full, executed_txs } = outcome;
        let stats = match &mut self.state {
            ExecutorThreadState::Executing(executing) => tally(
                &executed_txs,
                &blockifier_results,
                exec_duration,
                &mut executing.declared_classes,
            ),
            ExecutorThreadState::NewBlock(_) => ExecutionStats::default(),
        };
        if stats.n_added_to_block > 0 {
            self.block_empty = false;
        }
        self.l2_gas_consumed_block = self.l2_gas_consumed_block + stats.l2_gas_consumed;
        if stats.n_executed > 0 {
            self.phase = Phase::SendingBatch { block_full };
            Action::SendBatchExecuted(BatchExecutionResult { executed_txs, blockifier_results, stats })
        } else {
            self.phase = Phase::ReadingClock { block_full };
            Action::ReadClock
        }
    }

    /// The results were sent, or nobody listens any more.
    pub fn on_batch_sent(&mut self, sent: bool) -> (action: Action)
        requires
            old(self)@.wf(),
            old(self)@.phase is SendingBatch,
        ensures
            final(self)@.wf(),
            is_step(old(self)@, Event::BatchSent(sent), final(self)@),
            if sent {
                &&& final(self)@ == (ExecutorThreadView {
                    phase: Phase::ReadingClock {
                        block_full: old(self)@.phase->SendingBatch_block_full,
                    },
                    ..old(self)@
                })
                &&& action == Action::ReadClock
            } else {
                &&& final(self)@ == stopped(old(self)@)
                &&& action == Action::Exit(Ok(()))
            },
    {
        match (sent, self.phase) {
            (true, Phase::SendingBatch { block_full }) => {
                self.phase = Phase::ReadingClock { block_full };
                Action::ReadClock
            },
            _ => self.stop(Ok(())),
        }
    }

    /// The time was read. The block is ended if it is to be closed; else the next turn begins.
    pub fn on_clock(&mut self, now: u128) -> (action: Action)
        requires
            old(self)@.wf(),
            old(self)@.phase is ReadingClock,
        ensures
            final(self)@.wf(),
            is_step(old(self)@, Event::Clock { now }, final(self)@),
            if is_to_close(old(self)@, old(self)@.phase->ReadingClock_block_full, now) {
                &&& final(self)@ == (ExecutorThreadView { phase: Phase::Finalizing, ..old(self)@ })
                &&& action == Action::Finalize
            } else {
                (final(self)@, action) == next_turn(old(self)@)
            },
    {
        let block_full = match self.phase {
            Phase::ReadingClock { block_full } => block_full,
            _ => false,
        };
        if self.force_close || block_full || now >= self.next_block_deadline {
            self.phase = Phase::Finalizing;
            Action::Finalize
        } else {
            self.begin_turn()
        }
    }

    /// The block was finalized.
    pub fn on_finalized(&mut self, finalized: Result<(), String>) -> (action: Action)
        requires
            old(self)@.wf(),
            old(self)@.phase is Finalizing,
        ensures
            final(self)@.wf(),
            is_step(old(self)@, Event::Finalized(finalized is Ok), final(self)@),
            match finalized {
                Err(err) => {
                    &&& final(self)@ == stopped(old(self)@)
                    &&& action == Action::Exit(Err(ExecutorError::Finalize(err)))
                },
                Ok(_) => {
                    &&& final(self)@ == (ExecutorThreadView { phase: Phase::SendingEnd, ..old(self)@ })
                    &&& action == Action::SendEndBlock
                },
            },
    {
        match finalized {
            Err(err) => self.stop(Err(ExecutorError::Finalize(err))),
            Ok(_) => {
                self.phase = Phase::SendingEnd;
                Action::SendEndBlock
            },
        }
    }

    /// The end of the block was announced at the time `now`, or nobody listens any more. The time
    /// of the next block runs from here.
    pub fn on_end_block_sent(&mut self, sent: bool, now: u128) -> (action: Action)
        requires
            old(self)@.wf(),
            old(self)@.phase is SendingEnd,
            sent ==> now + old(self)@.config.block_time <= u128::MAX,
        ensures
            final(self)@.wf(),
            is_step(old(self)@, Event::EndBlockSent { sent, now }, final(self)@),
            if sent {
                &&& final(self)@ == (ExecutorThreadView {
                    next_block_deadline: (now + old(self)@.config.block_time) as u128,
                    phase: Phase::CollectingDiff,
                    ..old(self)@
                })
                &&& action == Action::CollectStateDiff
            } else {
                &&& final(self)@ == stopped(old(self)@)
                &&& action == Action::Exit(Ok(()))
            },
    {
        if sent {
            self.next_block_deadline = now + self.config.block_time;
            self.phase = Phase::CollectingDiff;
            Action::CollectStateDiff
        } else {
            self.stop(Ok(()))
        }
    }

    /// The block's state changes were collected.
    pub fn on_state_diff(&mut self, state_diff: Result<StateMaps, String>) -> (action: Action)
        requires
            old(self)@.wf(),
            old(self)@.phase is CollectingDiff,
        ensures
            final(self)@.wf(),
            is_step(old(self)@, Event::StateDiff(state_diff is Ok), final(self)@),
            match state_diff {
                Err(err) => {
                    &&& final(self)@ == stopped(old(self)@)
                    &&& action == Action::Exit(Err(ExecutorError::StateDiff(err)))
                },
                Ok(state_diff) => {
                    &&& final(self)@ == (ExecutorThreadView {
                        state: ExecutorThreadStateView::NewBlock {
                            consumed_l1_to_l2_nonces: Set::empty(),
                        },
                        block_empty: true,
                        extend_state_diffs: Seq::empty(),
                        phase: Phase::FinishingBlock,
                        ..old(self)@
                    })
                    &&& action matches Action::FinishBlock(finished) && {
                        &&& finished.state_diff@ == left_by(
                            state_diff@,
                            old(self)@.extend_state_diffs,
                            old(self)@.state->Executing_block_hash,
                        )
                        &&& finished.declared_classes@ == old(self)@.state->Executing_declared_classes
                        &&& finished.consumed_l1_to_l2_nonces@ == old(self)@.state.consumed()
                    }
                },
            },
    {
        let state_diff = match state_diff {
            Err(err) => {
                return self.stop(Err(ExecutorError::StateDiff(err)));
            },
            Ok(state_diff) => state_diff,
        };
        let mut state = ExecutorThreadState::initial_state();
        core::mem::swap(&mut state, &mut self.state);
        match state {
            ExecutorThreadState::Executing(executing) => {
                let (finished, state) = end_block(executing, state_diff, &self.extend_state_diffs);
                self.state = state;
                self.block_empty = true;
                self.extend_state_diffs = Vec::new();
                assert(views(self.extend_state_diffs@) =~= Seq::<StateMapsView>::empty());
                self.phase = Phase::FinishingBlock;
                Action::FinishBlock(finished)
            },
            ExecutorThreadState::NewBlock(_) => self.stop(Ok(())),
        }
    }

    /// The block was handed over. A batch that waited for it is accepted; else the next turn begins.
    pub fn on_block_finished(&mut self, finished: Result<(), String>) -> (action: Action)
        requires
            old(self)@.wf(),
            old(self)@.phase is FinishingBlock,
        ensures
            final(self)@.wf(),
            is_step(old(self)@, Event::BlockFinished(finished is Ok), final(self)@),
            match finished {
                Err(err) => {
                    &&& final(self)@ == stopped(old(self)@)
                    &&& action == Action::Exit(Err(ExecutorError::FinishBlock(err)))
                },
                Ok(_) => match old(self)@.pending_batch {
                    Some(params) => {
                        &&& final(self)@ == accepted(old(self)@, params)
                        &&& action == Action::Acknowledge
                    },
                    None => (final(self)@, action) == next_turn(
                        ExecutorThreadView { force_close: false, ..old(self)@ },
                    ),
                },
            },
    {
        if let Err(err) = finished {
            return self.stop(Err(ExecutorError::FinishBlock(err)));
        }
        match self.pending_batch.take() {
            Some(params) => self.accept(params),
            None => {
                self.force_close = false;
                self.begin_turn()
            },
        }
    }
}

/// The block of a batch is closed as soon as the batch is in it, whatever the time is.
pub proof fn the_block_of_a_batch_is_closed_at_once(
    thread: ExecutorThreadView,
    outcome: ExecutionOutcome,
    now: u128,
)
    requires
        thread.wf(),
        thread.phase is Replayed,
        thread.replayed == Some(outcome),
    ensures
        ({
            let after = added_to_block(
                ExecutorThreadView { replayed: None, ..thread },
                outcome.executed_txs@,
                outcome.blockifier_results@,
                outcome.block_full,
            );
            &&& after.phase == (Phase::SendingBatch { block_full: true }) || after.phase == (
            Phase::ReadingClock { block_full: true })
            &&& is_to_close(after, true, now)
        }),
{
}

/// A command to close the block closes it at the end of the turn, whatever the time is and however
/// much the block holds.
pub proof fn a_forced_block_is_closed(
    thread: ExecutorThreadView,
    txs: Seq<Arrival>,
    results: Seq<TransactionExecutionResult>,
    block_full: bool,
    now: u128,
)
    requires
        thread.force_close,
    ensures
        after_taking(thread).0.force_close,
        added_to_block(thread, txs, results, block_full).force_close,
        is_to_close(thread, block_full, now),
{
}

/// When there are to be no empty blocks, a block without transactions waits for its first one: the
/// wait has no deadline.
pub proof fn an_empty_block_waits_for_its_first_transaction(thread: ExecutorThreadView)
    requires
        thread.config.no_empty_blocks,
        thread.block_empty,
        thread.to_exec.len() == 0,
        thread.config.batch_size > 0,
    ensures
        next_turn(thread).1 == (Action::Take { deadline: None, should_wait: true }),
{
}

/// A block that holds a transaction, or that may stay empty, waits no longer than to its deadline.
pub proof fn other_blocks_wait_until_their_deadline(thread: ExecutorThreadView)
    requires
        !thread.config.no_empty_blocks || !thread.block_empty,
        thread.to_exec.len() < thread.config.batch_size,
    ensures
        next_turn(thread).1 == (Action::Take {
            deadline: Some(thread.next_block_deadline),
            should_wait: thread.to_exec.len() == 0,
        }),
{
}

/// The gas that a block's transactions used is what the header of the next block is made with:
/// nothing that happens between the two changes it.
pub proof fn gas_of_a_block_reaches_the_next(thread: ExecutorThreadView, params: AppendBatchParams)
    requires
        thread.state is NewBlock,
    ensures
        next_turn(thread).0.l2_gas_consumed_block == thread.l2_gas_consumed_block,
        accepted(thread, params).l2_gas_consumed_block == thread.l2_gas_consumed_block,
        after_taking(thread).1 == (Action::CreateContext {
            previous_l2_gas_used: thread.l2_gas_consumed_block,
        }),
{
}

/// A block is empty exactly as long as no transaction was added to it.
pub proof fn a_block_is_empty_until_a_transaction_is_added(
    thread: ExecutorThreadView,
    txs: Seq<Arrival>,
    results: Seq<TransactionExecutionResult>,
    block_full: bool,
)
    ensures
        added_to_block(thread, txs, results, block_full).block_empty <==> thread.block_empty && forall|
            i: int,
        |
            0 <= i < txs.len() && i < results.len() ==> #[trigger] results[i] is Err,
{
    let executed = paired(txs, results);
    lemma_none_added(executed);
    if n_added(executed) == 0 {
        assert forall|i: int| 0 <= i < txs.len() && i < results.len() implies #[trigger] results[i] is Err by {
            assert(!was_added(executed[i]));
        }
    }
}

/// At the start of a turn, and after transactions were taken or arrived, the executor changes only in
/// what it waits for, and what it asks for is what it waits for.
pub proof fn the_action_fits_the_phase(thread: ExecutorThreadView)
    ensures
        fits(thread, next_turn(thread).0, next_turn(thread).1),
        fits(thread, after_taking(thread).0, after_taking(thread).1),
        fits(thread, after_arrivals(thread).0, after_arrivals(thread).1),
{
}

/// Whether nothing changed but the phase, and the action is the one of that phase.
pub open spec fn fits(before: ExecutorThreadView, after: ExecutorThreadView, action: Action) -> bool {
    &&& after == (ExecutorThreadView { phase: after.phase, ..before })
    &&& match action {
        Action::Take { should_wait, .. } => {
            &&& after.phase is Taking
            &&& before.to_exec.len() < before.config.batch_size
            &&& should_wait <==> before.to_exec.len() == 0
        },
        Action::CreateContext { previous_l2_gas_used } => {
            &&& after.phase is CreatingContext
            &&& before.state is NewBlock
            &&& previous_l2_gas_used == before.l2_gas_consumed_block
        },
        Action::ReplayBatch => {
            &&& after.phase is Replaying
            &&& before.state is Executing
            &&& before.append_batch_state is Some
        },
        Action::ExecuteTxs => {
            &&& after.phase is Executing
            &&& before.state is Executing
            &&& before.append_batch_state is None
        },
        _ => false,
    }
}

/// Transactions are taken at the start of a turn exactly as long as there are fewer than are executed
/// together.
pub proof fn transactions_are_taken_until_there_are_enough(thread: ExecutorThreadView)
    ensures
        next_turn(thread).1 is Take <==> thread.to_exec.len() < thread.config.batch_size,
        !(after_taking(thread).1 is Take),
        next_turn(thread).1 matches Action::Take { deadline, .. } ==> (deadline is None
            <==> thread.block_empty && thread.config.no_empty_blocks) && (deadline is Some ==> deadline
            == Some(thread.next_block_deadline)),
{
}

/// What is sent of executed transactions is the transactions, each result and the counts over them;
/// nothing is sent where none was executed.
pub proof fn what_was_executed_is_sent(
    action: Action,
    txs: Seq<Arrival>,
    results: Vec<TransactionExecutionResult>,
    exec_duration: u128,
)
    requires
        sends_results(action, txs, results, exec_duration),
    ensures
        txs.len() == 0 ==> action is ReadClock,
        txs.len() > 0 ==> (action matches Action::SendBatchExecuted(result) && result.executed_txs@ == txs
            && result.blockifier_results@ == results@ && result.stats == stats_of(
            txs,
            results@,
            exec_duration,
        )),
{
}

/// A batch that is accepted changes nothing of what waits, of the time and the gas, and of the state.
pub proof fn accepting_a_batch_leaves_the_rest(thread: ExecutorThreadView, params: AppendBatchParams)
    ensures
        ({
            let next = accepted(thread, params);
            &&& next.config == thread.config
            &&& next.state == thread.state
            &&& next.to_exec == thread.to_exec
            &&& next.next_block_deadline == thread.next_block_deadline
            &&& next.block_empty == thread.block_empty
            &&& next.l2_gas_consumed_block == thread.l2_gas_consumed_block
            &&& next.replayed == thread.replayed
            &&& next.extend_state_diffs == thread.extend_state_diffs
            &&& next.force_close
            &&& next.phase is Acknowledging
        }),
{
}

} // verus!
