//! What holds of the executor over whole runs, whatever happens to it.
//!
//! A run is a sequence of events, each of which the executor waited for when it happened.
use crate::admission::{
    admission_failure, admitted, distinct_messages, is_failing, lemma_all_gone_through,
    messages_of_earlier_blocks_stay_out, n_gone_through, no_message_is_admitted_twice, number_of,
    numbers_in, other_transactions, other_transactions_are_all_admitted, seen_after,
    the_first_failing_arrival_is_reported, Arrival,
};
use crate::append_batch::{AppendBatchParams, TransactionReceipt};
use crate::block::{
    a_batch_seeds_its_block, a_block_without_a_batch_starts_with_the_hash_alone, block_hash_entry,
    holds_hash_of, new_block_cache,
};
use crate::cache::StateCacheView;
use crate::execution::{
    a_replayed_batch_stands_for_its_transactions, changes_made, counts_add_up, declarations_add_up,
    declared_classes, declared_it, gas_used, is_outcome_of, is_replay_of, lemma_none_added, n_added,
    paired, the_last_declaration_counts, was_added, Executed, ExecutionOutcome,
};
use crate::executor::{
    AppendBatchState, BlockExecutionContext, ExecutorInitialCache, ExecutorThreadStateView,
};
use crate::felt::Felt;
use crate::keys::{ClassHash, ContractAddress, Nonce, StorageEntry};
use crate::state::{changes_of, CommitmentStateDiff, StateMapsView};
use crate::thread::{
    accepted, added_to_block, after_arrivals, after_taking, is_to_close, next_turn, stopped, Action,
    ExecutorThreadView, Phase,
};
use crate::transaction::{batch_transaction, ContractClass, TransactionExecutionResult};
use crate::waiting::{is_ten_blocks_back, BlockHash};
use vstd::prelude::*;

verus! {

/// What can happen to an executor. Where something can fail, it is told whether it did.
pub enum Event {
    BatchesClosed,
    Batch { arrivals: Seq<Arrival>, consumed: Seq<Result<bool, String>> },
    CloseBlock,
    AppendBatch { params: AppendBatchParams, values_read: bool },
    Acknowledged,
    Context(Option<BlockExecutionContext>),
    ExecutorBuilt(bool),
    BlockHash(Option<Option<BlockHash>>),
    CacheSeeded(bool),
    StartSent(bool),
    Executed { results: Seq<TransactionExecutionResult> },
    Replay { outcome: ExecutionOutcome },
    Replayed,
    BatchSent(bool),
    Clock { now: u128 },
    Finalized(bool),
    EndBlockSent { sent: bool, now: u128 },
    StateDiff(bool),
    BlockFinished(bool),
}

/// Whether the executor waits for the event.
pub open spec fn awaits(thread: ExecutorThreadView, event: Event) -> bool {
    match event {
        Event::BatchesClosed => thread.phase is Taking && thread.to_exec.len() == 0,
        Event::Batch { arrivals, consumed } => thread.phase is Taking && consumed.len() == arrivals.len(),
        Event::CloseBlock => thread.phase is Taking,
        Event::AppendBatch { .. } => thread.phase is Taking,
        Event::Acknowledged => thread.phase is Acknowledging,
        Event::Context(_) => thread.phase is CreatingContext,
        Event::ExecutorBuilt(_) => thread.phase is BuildingExecutor,
        Event::BlockHash(found) => thread.phase is WaitingForBlockHash && (found matches Some(block_hash)
            ==> is_ten_blocks_back(block_hash, thread.phase->WaitingForBlockHash_0.block_number)),
        Event::CacheSeeded(_) => thread.phase is SeedingCache,
        Event::StartSent(_) => thread.phase is SendingStart,
        Event::Executed { results } => thread.phase is Executing && results.len() <= thread.to_exec.len()
            && thread.l2_gas_consumed_block + gas_used(
            paired(thread.to_exec.take(results.len() as int), results),
        ) <= u128::MAX,
        Event::Replay { outcome } => thread.phase is Replaying && is_outcome_of(
            outcome,
            thread.append_batch_state->0,
        ),
        Event::Replayed => thread.phase is Replayed && thread.l2_gas_consumed_block + gas_used(
            paired(thread.replayed->0.executed_txs@, thread.replayed->0.blockifier_results@),
        ) <= u128::MAX,
        Event::BatchSent(_) => thread.phase is SendingBatch,
        Event::Clock { .. } => thread.phase is ReadingClock,
        Event::Finalized(_) => thread.phase is Finalizing,
        Event::EndBlockSent { sent, now } => thread.phase is SendingEnd && (sent ==> now
            + thread.config.block_time <= u128::MAX),
        Event::StateDiff(_) => thread.phase is CollectingDiff,
        Event::BlockFinished(_) => thread.phase is FinishingBlock,
    }
}

/// The arrivals that an executor admits of a batch.
pub open spec fn newly_admitted(
    thread: ExecutorThreadView,
    arrivals: Seq<Arrival>,
    consumed: Seq<Result<bool, String>>,
) -> Seq<Arrival> {
    let n = n_gone_through(arrivals, consumed) as int;
    admitted(thread.state.consumed(), arrivals.take(n), consumed.take(n))
}

/// The executor with a batch taken in.
pub open spec fn taken_in(
    thread: ExecutorThreadView,
    arrivals: Seq<Arrival>,
    consumed: Seq<Result<bool, String>>,
) -> ExecutorThreadView {
    let n = n_gone_through(arrivals, consumed) as int;
    ExecutorThreadView {
        state: thread.state.with_consumed(
            seen_after(thread.state.consumed(), arrivals.take(n), consumed.take(n)),
        ),
        to_exec: thread.to_exec + newly_admitted(thread, arrivals, consumed),
        ..thread
    }
}

/// What an event makes of the executor.
pub open spec fn step(thread: ExecutorThreadView, event: Event) -> ExecutorThreadView {
    match event {
        Event::BatchesClosed => stopped(thread),
        Event::Batch { arrivals, consumed } => if admission_failure(arrivals, consumed) is Some {
            stopped(taken_in(thread, arrivals, consumed))
        } else {
            after_arrivals(taken_in(thread, arrivals, consumed)).0
        },
        Event::CloseBlock => ExecutorThreadView {
            force_close: true,
            phase: Phase::Acknowledging,
            ..thread
        },
        Event::AppendBatch { params, values_read } => if !values_read {
            stopped(thread)
        } else if thread.state is Executing {
            ExecutorThreadView { pending_batch: Some(params), phase: Phase::Finalizing, ..thread }
        } else {
            accepted(thread, params)
        },
        Event::Acknowledged => after_taking(thread).0,
        Event::Context(context) => match context {
            Some(context) => ExecutorThreadView {
                override_gas_price: None,
                phase: Phase::BuildingExecutor(
                    match thread.override_gas_price {
                        Some(gas_prices) => BlockExecutionContext { gas_prices, ..context },
                        None => context,
                    },
                ),
                ..thread
            },
            None => stopped(thread),
        },
        Event::ExecutorBuilt(built) => if built {
            ExecutorThreadView {
                phase: Phase::WaitingForBlockHash(thread.phase->BuildingExecutor_0),
                ..thread
            }
        } else {
            stopped(thread)
        },
        Event::BlockHash(found) => match found {
            Some(block_hash) => ExecutorThreadView {
                state: ExecutorThreadStateView::Executing {
                    exec_ctx: thread.phase->WaitingForBlockHash_0,
                    block_hash,
                    declared_classes: Map::empty(),
                    consumed_l1_to_l2_nonces: thread.state.consumed(),
                },
                l2_gas_consumed_block: 0,
                executor_initial_cache: None,
                phase: Phase::SeedingCache,
                ..thread
            },
            None => stopped(thread),
        },
        Event::CacheSeeded(seeded) => if seeded {
            ExecutorThreadView { phase: Phase::SendingStart, ..thread }
        } else {
            stopped(thread)
        },
        Event::StartSent(sent) => if sent {
            after_taking(thread).0
        } else {
            stopped(thread)
        },
        Event::Executed { results } => added_to_block(
            ExecutorThreadView { to_exec: thread.to_exec.skip(results.len() as int), ..thread },
            thread.to_exec.take(results.len() as int),
            results,
            results.len() < thread.to_exec.len(),
        ),
        Event::Replay { outcome } => ExecutorThreadView {
            append_batch_state: None,
            replayed: Some(outcome),
            extend_state_diffs: thread.append_batch_state->0.transaction_results@.map_values(
                |result: (TransactionReceipt, CommitmentStateDiff)| changes_of(result.1),
            ),
            phase: Phase::Replayed,
            ..thread
        },
        Event::Replayed => added_to_block(
            ExecutorThreadView { replayed: None, ..thread },
            thread.replayed->0.executed_txs@,
            thread.replayed->0.blockifier_results@,
            thread.replayed->0.block_full,
        ),
        Event::BatchSent(sent) => if sent {
            ExecutorThreadView {
                phase: Phase::ReadingClock { block_full: thread.phase->SendingBatch_block_full },
                ..thread
            }
        } else {
            stopped(thread)
        },
        Event::Clock { now } => if is_to_close(thread, thread.phase->ReadingClock_block_full, now) {
            ExecutorThreadView { phase: Phase::Finalizing, ..thread }
        } else {
            next_turn(thread).0
        },
        Event::Finalized(finalized) => if finalized {
            ExecutorThreadView { phase: Phase::SendingEnd, ..thread }
        } else {
            stopped(thread)
        },
        Event::EndBlockSent { sent, now } => if sent {
            ExecutorThreadView {
                next_block_deadline: (now + thread.config.block_time) as u128,
                phase: Phase::CollectingDiff,
                ..thread
            }
        } else {
            stopped(thread)
        },
        Event::StateDiff(collected) => if collected {
            ExecutorThreadView {
                state: ExecutorThreadStateView::NewBlock { consumed_l1_to_l2_nonces: Set::empty() },
                block_empty: true,
                extend_state_diffs: Seq::empty(),
                phase: Phase::FinishingBlock,
                ..thread
            }
        } else {
            stopped(thread)
        },
        Event::BlockFinished(finished) => if !finished {
            stopped(thread)
        } else {
            match thread.pending_batch {
                Some(params) => accepted(thread, params),
                None => next_turn(ExecutorThreadView { force_close: false, ..thread }).0,
            }
        },
    }
}

/// Whether the event makes one of the other, and is one that the executor waited for.
pub open spec fn is_step(before: ExecutorThreadView, event: Event, after: ExecutorThreadView) -> bool {
    awaits(before, event) && after == step(before, event)
}

/// What the events make of the executor, one after the other.
pub open spec fn after(start: ExecutorThreadView, events: Seq<Event>) -> ExecutorThreadView
    decreases events.len(),
{
    if events.len() == 0 {
        start
    } else {
        step(after(start, events.drop_last()), events.last())
    }
}

/// Whether each of the events is one that the executor waited for when it happened.
pub open spec fn is_run(start: ExecutorThreadView, events: Seq<Event>) -> bool
    decreases events.len(),
{
    events.len() > 0 ==> {
        &&& is_run(start, events.drop_last())
        &&& awaits(after(start, events.drop_last()), events.last())
    }
}

/// Every event leaves an executor in order that is in order.
#[verifier::rlimit(60)]
pub proof fn each_event_keeps_order(thread: ExecutorThreadView, event: Event)
    requires
        thread.wf(),
        awaits(thread, event),
    ensures
        step(thread, event).wf(),
{
}

/// An executor stays in order over any run.
pub proof fn every_run_keeps_order(start: ExecutorThreadView, events: Seq<Event>)
    requires
        start.wf(),
        is_run(start, events),
    ensures
        after(start, events).wf(),
    decreases events.len(),
{
    if events.len() > 0 {
        every_run_keeps_order(start, events.drop_last());
        each_event_keeps_order(after(start, events.drop_last()), events.last());
    }
}

/// The arrivals that were admitted in the course of a run.
pub open spec fn all_admitted(start: ExecutorThreadView, events: Seq<Event>) -> Seq<Arrival>
    decreases events.len(),
{
    if events.len() == 0 {
        Seq::empty()
    } else {
        all_admitted(start, events.drop_last()) + match events.last() {
            Event::Batch { arrivals, consumed } => newly_admitted(
                after(start, events.drop_last()),
                arrivals,
                consumed,
            ),
            _ => Seq::empty(),
        }
    }
}

/// The transactions that were executed in the course of a run, batches apart.
pub open spec fn all_executed(start: ExecutorThreadView, events: Seq<Event>) -> Seq<Arrival>
    decreases events.len(),
{
    if events.len() == 0 {
        Seq::empty()
    } else {
        all_executed(start, events.drop_last()) + match events.last() {
            Event::Executed { results } => after(start, events.drop_last()).to_exec.take(
                results.len() as int,
            ),
            _ => Seq::empty(),
        }
    }
}

/// No transaction is lost, none is executed twice and none overtakes another: those that were
/// executed and those that still wait are those that were admitted, in that order.
pub proof fn no_transaction_is_lost_or_overtaken(start: ExecutorThreadView, events: Seq<Event>)
    requires
        is_run(start, events),
    ensures
        start.to_exec + all_admitted(start, events) == all_executed(start, events) + after(
            start,
            events,
        ).to_exec,
    decreases events.len(),
{
    let admitted_now = all_admitted(start, events);
    let executed_now = all_executed(start, events);
    let thread = after(start, events);
    if events.len() == 0 {
        assert(start.to_exec + admitted_now =~= executed_now + thread.to_exec);
    } else {
        no_transaction_is_lost_or_overtaken(start, events.drop_last());
        let before = after(start, events.drop_last());
        match events.last() {
            Event::Batch { arrivals, consumed } => {
                assert(thread.to_exec == before.to_exec + newly_admitted(before, arrivals, consumed));
            },
            Event::Executed { results } => {
                let n = results.len() as int;
                assert(thread.to_exec == before.to_exec.skip(n));
                assert(before.to_exec =~= before.to_exec.take(n) + before.to_exec.skip(n));
            },
            _ => {
                assert(thread.to_exec == before.to_exec);
            },
        }
        assert(start.to_exec + admitted_now =~= (start.to_exec + all_admitted(start, events.drop_last()))
            + admitted_now.skip(all_admitted(start, events.drop_last()).len() as int));
        assert(start.to_exec + admitted_now =~= executed_now + thread.to_exec);
    }
}

/// The transactions that arrived in the course of a run.
pub open spec fn all_arrived(events: Seq<Event>) -> Seq<Arrival>
    decreases events.len(),
{
    if events.len() == 0 {
        Seq::empty()
    } else {
        all_arrived(events.drop_last()) + match events.last() {
            Event::Batch { arrivals, .. } => arrivals,
            _ => Seq::empty(),
        }
    }
}

/// As long as a run goes on, transactions that are no messages are all admitted, in the order in which
/// they arrived.
pub proof fn every_run_admits_all_other_transactions(start: ExecutorThreadView, events: Seq<Event>)
    requires
        is_run(start, events),
        !(after(start, events).phase is Stopped) || events.last() is BatchesClosed,
    ensures
        other_transactions(all_admitted(start, events)) == other_transactions(all_arrived(events)),
    decreases events.len(),
{
    if events.len() > 0 {
        let before = events.drop_last();
        let thread = after(start, before);
        every_run_admits_all_other_transactions(start, before);
        match events.last() {
            Event::Batch { arrivals, consumed } => {
                lemma_all_gone_through(arrivals, consumed);
                assert(arrivals.take(arrivals.len() as int) =~= arrivals);
                other_transactions_are_all_admitted(
                    thread.state.consumed(),
                    arrivals,
                    consumed.take(arrivals.len() as int),
                );
                lemma_other_transactions_add(
                    all_admitted(start, before),
                    newly_admitted(thread, arrivals, consumed),
                );
                lemma_other_transactions_add(all_arrived(before), arrivals);
            },
            _ => {
                assert(all_admitted(start, events) =~= all_admitted(start, before));
                assert(all_arrived(events) =~= all_arrived(before));
            },
        }
    }
}

/// The transactions that are no messages among two sequences are those of the one and of the other.
proof fn lemma_other_transactions_add(a: Seq<Arrival>, b: Seq<Arrival>)
    ensures
        other_transactions(a + b) == other_transactions(a) + other_transactions(b),
    decreases b.len(),
{
    if b.len() == 0 {
        assert(a + b =~= a);
        assert(other_transactions(a) + other_transactions(b) =~= other_transactions(a));
    } else {
        lemma_other_transactions_add(a, b.drop_last());
        assert((a + b).drop_last() =~= a + b.drop_last());
        assert(other_transactions(a + b) =~= other_transactions(a) + other_transactions(b));
    }
}

/// When the executor stops because no transactions will come any more, all that were admitted have
/// been executed, in order: of those that arrived, none is left out but duplicates of messages.
pub proof fn all_is_executed_when_the_batches_close(start: ExecutorThreadView, events: Seq<Event>)
    requires
        start.to_exec.len() == 0,
        is_run(start, events),
        events.len() > 0,
        events.last() is BatchesClosed,
    ensures
        all_executed(start, events) == all_admitted(start, events),
        other_transactions(all_executed(start, events)) == other_transactions(all_arrived(events)),
{
    no_transaction_is_lost_or_overtaken(start, events);
    every_run_admits_all_other_transactions(start, events);
    assert(start.to_exec + all_admitted(start, events) =~= all_admitted(start, events));
    assert(all_executed(start, events) + after(start, events).to_exec =~= all_executed(start, events));
}

/// The messages that ended blocks handed over in the course of a run.
pub open spec fn all_handed_over(start: ExecutorThreadView, events: Seq<Event>) -> Set<u64>
    decreases events.len(),
{
    if events.len() == 0 {
        Set::empty()
    } else {
        let before = all_handed_over(start, events.drop_last());
        if events.last() == Event::StateDiff(true) {
            before.union(after(start, events.drop_last()).state.consumed())
        } else {
            before
        }
    }
}

/// Whether messages that ended blocks handed over were never reported as not consumed afterwards.
pub open spec fn handed_over_is_consumed(start: ExecutorThreadView, events: Seq<Event>) -> bool
    decreases events.len(),
{
    events.len() > 0 ==> {
        &&& handed_over_is_consumed(start, events.drop_last())
        &&& events.last() matches Event::Batch { arrivals, consumed } ==> forall|i: int|
            0 <= i < arrivals.len() && (number_of((#[trigger] arrivals[i]).0) matches Some(number)
                && all_handed_over(start, events.drop_last()).contains(number)) ==> consumed[i] != Ok::<
                bool,
                String,
            >(false)
    }
}

/// No more arrivals are gone through than there are.
proof fn lemma_gone_through_is_bounded(arrivals: Seq<Arrival>, consumed: Seq<Result<bool, String>>)
    ensures
        n_gone_through(arrivals, consumed) <= arrivals.len(),
    decreases arrivals.len(),
{
    if arrivals.len() > 0 {
        lemma_gone_through_is_bounded(arrivals.drop_last(), consumed.drop_last());
    }
}

/// Messages stay distinct where other ones are added to them.
proof fn lemma_distinct_messages_add(a: Seq<Arrival>, b: Seq<Arrival>)
    requires
        distinct_messages(a),
        distinct_messages(b),
        numbers_in(a).disjoint(numbers_in(b)),
    ensures
        distinct_messages(a + b),
        numbers_in(a + b) == numbers_in(a).union(numbers_in(b)),
{
    let all = a + b;
    assert forall|i: int, j: int|
        #![trigger all[i], all[j]]
        0 <= i < j < all.len() && number_of(all[i].0) is Some implies number_of(all[i].0) != number_of(
        all[j].0,
    ) by {
        if j < a.len() {
            assert(all[i] == a[i] && all[j] == a[j]);
        } else if i >= a.len() {
            assert(all[i] == b[i - a.len()] && all[j] == b[j - a.len()]);
        } else {
            assert(all[i] == a[i] && all[j] == b[j - a.len()]);
            if number_of(all[i].0) == number_of(all[j].0) {
                let number = number_of(all[i].0)->0;
                assert(numbers_in(a).contains(number));
                assert(number_of(b[j - a.len()].0) == Some(number));
                assert(numbers_in(b).contains(number));
            }
        }
    }
    assert forall|number: u64| numbers_in(all).contains(number) <==> numbers_in(a).union(
        numbers_in(b),
    ).contains(number) by {
        if numbers_in(all).contains(number) {
            let i = choose|i: int| 0 <= i < all.len() && number_of((#[trigger] all[i]).0) == Some(number);
            if i < a.len() {
                assert(number_of(a[i].0) == Some(number));
            } else {
                assert(number_of(b[i - a.len()].0) == Some(number));
            }
        }
        if numbers_in(a).contains(number) {
            let i = choose|i: int| 0 <= i < a.len() && number_of((#[trigger] a[i]).0) == Some(number);
            assert(number_of(all[i].0) == Some(number));
        }
        if numbers_in(b).contains(number) {
            let i = choose|i: int| 0 <= i < b.len() && number_of((#[trigger] b[i]).0) == Some(number);
            assert(number_of(all[i + a.len()].0) == Some(number));
        }
    }
    assert(numbers_in(all) =~= numbers_in(a).union(numbers_in(b)));
}

/// No message is admitted twice in any run, over all its blocks, as long as the state reports the
/// messages that ended blocks handed over to it as consumed.
pub proof fn no_run_admits_a_message_twice(start: ExecutorThreadView, events: Seq<Event>)
    requires
        start.state.consumed() == Set::<u64>::empty(),
        is_run(start, events),
        handed_over_is_consumed(start, events),
    ensures
        distinct_messages(all_admitted(start, events)),
        numbers_in(all_admitted(start, events)).subset_of(
            all_handed_over(start, events).union(after(start, events).state.consumed()),
        ),
    decreases events.len(),
{
    if events.len() > 0 {
        let before = events.drop_last();
        no_run_admits_a_message_twice(start, before);
        let thread = after(start, before);
        let earlier = all_admitted(start, before);
        let handed_over = all_handed_over(start, before);
        match events.last() {
            Event::Batch { arrivals, consumed } => {
                let n = n_gone_through(arrivals, consumed) as int;
                lemma_gone_through_is_bounded(arrivals, consumed);
                let seen = thread.state.consumed();
                assert forall|i: int|
                    0 <= i < arrivals.take(n).len() && (number_of(
                        (#[trigger] arrivals.take(n)[i]).0,
                    ) matches Some(number) && handed_over.contains(number)) implies consumed.take(n)[i]
                    != Ok::<bool, String>(false) by {
                    assert(arrivals.take(n)[i] == arrivals[i]);
                }
                messages_of_earlier_blocks_stay_out(
                    numbers_in(earlier),
                    handed_over,
                    seen,
                    arrivals.take(n),
                    consumed.take(n),
                );
                no_message_is_admitted_twice(seen, arrivals.take(n), consumed.take(n));
                lemma_distinct_messages_add(earlier, newly_admitted(thread, arrivals, consumed));
            },
            _ => {
                assert(all_admitted(start, events) =~= earlier);
            },
        }
    }
}

/// How often the start of a block was announced in the course of a run.
pub open spec fn n_started(events: Seq<Event>) -> int
    decreases events.len(),
{
    if events.len() == 0 {
        0
    } else {
        n_started(events.drop_last()) + if events.last() == Event::StartSent(true) {
            1int
        } else {
            0
        }
    }
}

/// How often the end of a block was announced in the course of a run.
pub open spec fn n_ended(events: Seq<Event>) -> int
    decreases events.len(),
{
    if events.len() == 0 {
        0
    } else {
        n_ended(events.drop_last()) + if events.last() matches Event::EndBlockSent { sent: true, .. } {
            1int
        } else {
            0
        }
    }
}

/// Whether the start of a block was announced whose end was not.
pub open spec fn is_announced(thread: ExecutorThreadView) -> bool {
    thread.state is Executing && !(thread.phase is SeedingCache) && !(thread.phase is SendingStart) && !(
    thread.phase is CollectingDiff)
}

/// Starts and ends of blocks are announced in turn, a start first: as long as a run goes on, as many
/// ends were announced as starts, but for one while a block is open.
#[verifier::rlimit(40)]
pub proof fn blocks_are_announced_in_turn(start: ExecutorThreadView, events: Seq<Event>)
    requires
        start.wf(),
        start.state is NewBlock,
        is_run(start, events),
        !(after(start, events).phase is Stopped),
    ensures
        n_started(events) == n_ended(events) + if is_announced(after(start, events)) {
            1int
        } else {
            0
        },
    decreases events.len(),
{
    if events.len() > 0 {
        blocks_are_announced_in_turn(start, events.drop_last());
        every_run_keeps_order(start, events.drop_last());
    }
}

/// The gas that the transactions of the last block that was started used, up to here.
pub open spec fn gas_of_the_block(start: ExecutorThreadView, events: Seq<Event>) -> int
    decreases events.len(),
{
    if events.len() == 0 {
        start.l2_gas_consumed_block as int
    } else {
        let thread = after(start, events.drop_last());
        match events.last() {
            Event::BlockHash(Some(_)) => 0,
            Event::Executed { results } => gas_of_the_block(start, events.drop_last()) + gas_used(
                paired(thread.to_exec.take(results.len() as int), results),
            ),
            Event::Replayed => gas_of_the_block(start, events.drop_last()) + gas_used(
                paired(thread.replayed->0.executed_txs@, thread.replayed->0.blockifier_results@),
            ),
            _ => gas_of_the_block(start, events.drop_last()),
        }
    }
}

/// The executor counts the gas of the block's transactions, and no other, until the next block is
/// started with it.
pub proof fn the_gas_of_a_block_is_counted(start: ExecutorThreadView, events: Seq<Event>)
    requires
        is_run(start, events),
    ensures
        after(start, events).l2_gas_consumed_block == gas_of_the_block(start, events),
    decreases events.len(),
{
    if events.len() > 0 {
        the_gas_of_a_block_is_counted(start, events.drop_last());
    }
}

/// The transactions that were executed for the last block that was started, those of a batch too.
pub open spec fn block_contents(start: ExecutorThreadView, events: Seq<Event>) -> Seq<Arrival>
    decreases events.len(),
{
    if events.len() == 0 {
        Seq::empty()
    } else {
        let thread = after(start, events.drop_last());
        match events.last() {
            Event::BlockHash(Some(_)) => Seq::empty(),
            Event::Executed { results } => block_contents(start, events.drop_last())
                + thread.to_exec.take(results.len() as int),
            Event::Replayed => block_contents(start, events.drop_last())
                + thread.replayed->0.executed_txs@,
            _ => block_contents(start, events.drop_last()),
        }
    }
}

/// The transactions of the batch that was appended as the last block that was started, if there is
/// one.
pub open spec fn appended_batch(start: ExecutorThreadView, events: Seq<Event>) -> Option<Seq<Arrival>>
    decreases events.len(),
{
    if events.len() == 0 {
        None
    } else {
        match events.last() {
            Event::BlockHash(Some(_)) => None,
            Event::Replayed => Some(after(start, events.drop_last()).replayed->0.executed_txs@),
            _ => appended_batch(start, events.drop_last()),
        }
    }
}

/// In any run a batch that is appended has its block to itself: no other transaction is executed for
/// that block, before the batch or after it.
pub proof fn a_batch_has_its_block_to_itself(start: ExecutorThreadView, events: Seq<Event>)
    requires
        start.wf(),
        start.state is NewBlock,
        is_run(start, events),
    ensures
        appended_batch(start, events) matches Some(txs) ==> block_contents(start, events) == txs,
{
    lemma_blocks_of_batches(start, events);
}

#[verifier::rlimit(40)]
proof fn lemma_blocks_of_batches(start: ExecutorThreadView, events: Seq<Event>)
    requires
        start.wf(),
        start.state is NewBlock,
        is_run(start, events),
    ensures
        appended_batch(start, events) matches Some(txs) ==> block_contents(start, events) == txs,
        ({
            let thread = after(start, events);
            // A block that was just started, or whose batch was just replayed, holds nothing.
            &&& thread.phase is SeedingCache || thread.phase is SendingStart || thread.phase is Replaying
                || thread.phase is Replayed ==> block_contents(start, events).len() == 0
                && appended_batch(start, events) is None
            // A block that holds a batch is on its way to its end.
            &&& appended_batch(start, events) is Some && thread.state is Executing ==> thread.phase == (
            Phase::SendingBatch { block_full: true }) || thread.phase == (Phase::ReadingClock {
                block_full: true,
            }) || thread.closes() || thread.phase is Stopped
        }),
    decreases events.len(),
{
    if events.len() > 0 {
        let before = events.drop_last();
        lemma_blocks_of_batches(start, before);
        every_run_keeps_order(start, before);
        if events.last() is Replayed {
            assert(block_contents(start, events) =~= after(start, before).replayed->0.executed_txs@);
        }
    }
}

/// The changes that the transactions of the batch made that was appended as the last block that was
/// started, if there is one.
pub open spec fn appended_changes(start: ExecutorThreadView, events: Seq<Event>) -> Seq<StateMapsView>
    decreases events.len(),
{
    if events.len() == 0 {
        Seq::empty()
    } else {
        match events.last() {
            Event::BlockHash(Some(_)) => Seq::empty(),
            Event::Replay { outcome } => outcome.blockifier_results@.map_values(
                |result: TransactionExecutionResult| changes_made(result),
            ),
            _ => appended_changes(start, events.drop_last()),
        }
    }
}

/// In any run, while a block is open, the executor holds the changes of the batch that was appended as
/// the block, and no others: they are what the block leaves besides its own changes.
pub proof fn a_block_leaves_the_changes_of_its_batch(start: ExecutorThreadView, events: Seq<Event>)
    requires
        start.wf(),
        start.state is NewBlock,
        is_run(start, events),
        after(start, events).state is Executing,
        !(after(start, events).phase is Stopped),
    ensures
        after(start, events).extend_state_diffs == appended_changes(start, events),
    decreases events.len(),
{
    if events.len() > 0 {
        let before = events.drop_last();
        let thread = after(start, before);
        every_run_keeps_order(start, before);
        if thread.state is Executing {
            a_block_leaves_the_changes_of_its_batch(start, before);
        }
        if let Event::Replay { outcome } = events.last() {
            let results = thread.append_batch_state->0.transaction_results@;
            assert forall|i: int| 0 <= i < results.len() implies changes_made(
                outcome.blockifier_results@[i],
            ) == changes_of(results[i].1) by {}
        }
        assert(after(start, events).extend_state_diffs =~= appended_changes(start, events));
    }
}

/// When there are to be no empty blocks, the header of a block is made only once there is a
/// transaction for it, or on command.
pub proof fn a_header_waits_for_a_transaction_or_a_command(thread: ExecutorThreadView, event: Event)
    requires
        thread.wf(),
        thread.config.no_empty_blocks,
        thread.config.batch_size > 0,
        awaits(thread, event),
    ensures
        step(thread, event).phase is CreatingContext ==> step(thread, event).to_exec.len() > 0
            || event is Acknowledged,
{
}

/// What the cache of the last block that was started held from its start.
pub open spec fn starting_cache(start: ExecutorThreadView, events: Seq<Event>) -> StateCacheView
    decreases events.len(),
{
    if events.len() == 0 {
        StateCacheView::empty()
    } else {
        match events.last() {
            Event::BlockHash(Some(block_hash)) => new_block_cache(
                after(start, events.drop_last()).executor_initial_cache,
                block_hash,
            ),
            _ => starting_cache(start, events.drop_last()),
        }
    }
}

/// In any run each block but the first ten holds the hash of the block ten blocks back from its start:
/// it reads the hash in contract 1, under that block's number, and has it among its changes.
pub proof fn every_block_holds_the_hash_ten_blocks_back(start: ExecutorThreadView, events: Seq<Event>)
    requires
        start.wf(),
        start.state is NewBlock,
        is_run(start, events),
        !(after(start, events).phase is Stopped),
    ensures
        after(start, events).state matches ExecutorThreadStateView::Executing { exec_ctx, block_hash, .. }
            ==> (exec_ctx.block_number < 10 ==> block_hash is None) && (exec_ctx.block_number >= 10 ==> {
            &&& block_hash matches Some(block)
            &&& block.block_n == exec_ctx.block_number - 10
            &&& starting_cache(start, events).storage_at(block_hash_entry(block.block_n)) == Some(
                block.block_hash,
            )
            &&& starting_cache(start, events).writes.storage.contains_pair(
                block_hash_entry(block.block_n),
                block.block_hash,
            )
        }),
    decreases events.len(),
{
    if events.len() > 0 {
        every_run_keeps_order(start, events);
        every_run_keeps_order(start, events.drop_last());
        every_block_holds_the_hash_ten_blocks_back(start, events.drop_last());
    }
}

/// Whether an executor has done nothing yet.
pub open spec fn is_new(thread: ExecutorThreadView) -> bool {
    &&& thread.wf()
    &&& thread.state == (ExecutorThreadStateView::NewBlock { consumed_l1_to_l2_nonces: Set::empty() })
    &&& thread.to_exec.len() == 0
    &&& thread.l2_gas_consumed_block == 0
    &&& !thread.force_close
    &&& thread.append_batch_state is None
    &&& thread.executor_initial_cache is None
    &&& thread.override_gas_price is None
    &&& thread.pending_batch is None
    &&& thread.phase is Taking || thread.phase is CreatingContext
}

/// The header that was made last in the course of a run.
pub open spec fn last_header(events: Seq<Event>) -> Option<BlockExecutionContext>
    decreases events.len(),
{
    if events.len() == 0 {
        None
    } else {
        match events.last() {
            Event::Context(Some(context)) => Some(context),
            _ => last_header(events.drop_last()),
        }
    }
}

/// The batch that a command told to append and that no block was started for yet.
pub open spec fn batch_to_append(events: Seq<Event>) -> Option<AppendBatchParams>
    decreases events.len(),
{
    if events.len() == 0 {
        None
    } else {
        match events.last() {
            Event::AppendBatch { params, values_read: true } => Some(params),
            Event::BlockHash(Some(_)) => None,
            _ => batch_to_append(events.drop_last()),
        }
    }
}

/// The batch that the last block that was started was started for, if it was for one.
pub open spec fn batch_of_the_block(events: Seq<Event>) -> Option<AppendBatchParams>
    decreases events.len(),
{
    if events.len() == 0 {
        None
    } else {
        match events.last() {
            Event::BlockHash(Some(_)) => batch_to_append(events.drop_last()),
            _ => batch_of_the_block(events.drop_last()),
        }
    }
}

/// Whether the header is the one that was made, with the gas prices of the batch, if there is one.
pub open spec fn is_header_for(
    exec_ctx: BlockExecutionContext,
    made: Option<BlockExecutionContext>,
    batch: Option<AppendBatchParams>,
) -> bool {
    made matches Some(context) && {
        &&& exec_ctx.handle == context.handle
        &&& exec_ctx.block_number == context.block_number
        &&& match batch {
            Some(params) => exec_ctx.gas_prices == params.gas_prices,
            None => exec_ctx.gas_prices == context.gas_prices,
        }
    }
}

/// Whether these are the transactions and results of the batch.
spec fn is_batch_of(state: AppendBatchState, params: AppendBatchParams) -> bool {
    &&& state.transactions == params.transactions
    &&& state.transaction_results == params.transaction_results
}

/// Whether these are the values that the batch read at first and left behind.
spec fn are_values_of(cache: ExecutorInitialCache, params: AppendBatchParams) -> bool {
    &&& cache.initial_storage == params.initial_storage
    &&& cache.current_storage == params.current_storage
    &&& cache.initial_nonces == params.initial_nonces
    &&& cache.current_nonces == params.current_nonces
}

/// What an executor holds of the batches that it was told to append.
#[verifier::rlimit(60)]
proof fn lemma_batches(start: ExecutorThreadView, events: Seq<Event>)
    requires
        is_new(start),
        is_run(start, events),
    ensures
        ({
            let thread = after(start, events);
            let waiting = batch_to_append(events);
            let block = batch_of_the_block(events);
            !(thread.phase is Stopped) ==> {
                &&& match waiting {
                    Some(params) => {
                        ||| {
                            &&& thread.pending_batch == Some(params)
                            &&& thread.closes() || thread.phase is FinishingBlock
                            &&& thread.append_batch_state is None
                        }
                        ||| {
                            &&& thread.state is NewBlock
                            &&& thread.pending_batch is None
                            &&& thread.phase is Acknowledging || thread.starts()
                            &&& thread.append_batch_state matches Some(state) && is_batch_of(state, params)
                            &&& thread.executor_initial_cache matches Some(cache) && are_values_of(
                                cache,
                                params,
                            )
                            &&& thread.phase is Acknowledging || thread.phase is CreatingContext
                                ==> thread.override_gas_price == Some(params.gas_prices)
                        }
                    },
                    None => {
                        &&& thread.pending_batch is None
                        &&& thread.executor_initial_cache is None
                        &&& thread.override_gas_price is None
                        &&& thread.state is NewBlock ==> thread.append_batch_state is None
                    },
                }
                &&& thread.phase is BuildingExecutor ==> is_header_for(
                    thread.phase->BuildingExecutor_0,
                    last_header(events),
                    waiting,
                )
                &&& thread.phase is WaitingForBlockHash ==> is_header_for(
                    thread.phase->WaitingForBlockHash_0,
                    last_header(events),
                    waiting,
                )
                &&& thread.state matches ExecutorThreadStateView::Executing { exec_ctx, block_hash, .. }
                    ==> {
                    &&& is_header_for(exec_ctx, last_header(events), block)
                    &&& match block {
                        Some(params) => {
                            &&& thread.phase is SeedingCache || thread.phase is SendingStart
                                || thread.phase is Replaying ==> (thread.append_batch_state matches Some(
                                state,
                            ) && is_batch_of(state, params))
                            &&& thread.phase_has_block()
                            &&& !(thread.phase is Executing)
                            &&& thread.phase is Replayed || thread.phase is SendingBatch
                                || thread.phase is ReadingClock || thread.closes() ==> {
                                &&& thread.extend_state_diffs.len() == params.transaction_results@.len()
                                &&& forall|i: int|
                                    0 <= i < params.transaction_results@.len()
                                        ==> #[trigger] thread.extend_state_diffs[i] == changes_of(
                                        params.transaction_results@[i].1,
                                    )
                            }
                            &&& thread.phase matches Phase::SendingBatch { block_full } ==> block_full
                            &&& thread.phase matches Phase::ReadingClock { block_full } ==> block_full
                            &&& exists|cache: ExecutorInitialCache|
                                are_values_of(cache, params) && starting_cache(start, events)
                                    == #[trigger] new_block_cache(Some(cache), block_hash)
                        },
                        None => {
                            &&& thread.append_batch_state is None
                            &&& thread.extend_state_diffs.len() == 0
                            &&& starting_cache(start, events) == new_block_cache(None, block_hash)
                        },
                    }
                }
            }
        }),
    decreases events.len(),
{
    if events.len() > 0 {
        let before = events.drop_last();
        let thread = after(start, before);
        lemma_batches(start, before);
        every_run_keeps_order(start, before);
        every_run_keeps_order(start, events);
        if let Event::BlockHash(Some(found)) = events.last() {
            if let Some(params) = batch_to_append(before) {
                let cache = thread.executor_initial_cache->0;
                assert(are_values_of(cache, params));
                assert(starting_cache(start, events) == new_block_cache(Some(cache), found));
            }
        } else {
            assert(starting_cache(start, events) == starting_cache(start, before));
        }
    }
}

/// In any run, the block that is started for a batch has the values of that batch: from its start the
/// first value of each cell and nonce is the one that the batch read at first, and what is written is
/// what the batch left behind, and the hash of the block ten blocks back in its place; nothing else.
pub proof fn a_block_starts_with_the_values_of_its_batch(
    start: ExecutorThreadView,
    events: Seq<Event>,
    entry: StorageEntry,
    value: Felt,
    address: ContractAddress,
    nonce: Felt,
)
    requires
        is_new(start),
        is_run(start, events),
        after(start, events).state is Executing,
        !(after(start, events).phase is Stopped),
    ensures
        ({
            let cache = starting_cache(start, events);
            let block_hash = after(start, events).state->Executing_block_hash;
            let contract = entry.contract_address.felt();
            let key = entry.key.felt();
            match batch_of_the_block(events) {
                Some(params) => {
                    &&& cache.initial_reads.storage.contains_pair(entry, value) <==> (
                    params.initial_storage@.contains_key(contract)
                        && params.initial_storage@[contract]@.contains_pair(key, value))
                    &&& cache.writes.storage.contains_pair(entry, value) <==> if holds_hash_of(
                        entry,
                        block_hash,
                    ) {
                        value == block_hash->0.block_hash
                    } else {
                        params.current_storage@.contains_key(contract)
                            && params.current_storage@[contract]@.contains_pair(key, value)
                    }
                    &&& cache.initial_reads.nonces.contains_pair(address, Nonce(nonce))
                        <==> params.initial_nonces@.contains_pair(address.felt(), nonce)
                    &&& cache.writes.nonces.contains_pair(address, Nonce(nonce))
                        <==> params.current_nonces@.contains_pair(address.felt(), nonce)
                },
                None => {
                    &&& !cache.initial_reads.storage.contains_key(entry)
                    &&& cache.writes.storage.contains_pair(entry, value) <==> holds_hash_of(
                        entry,
                        block_hash,
                    ) && value == block_hash->0.block_hash
                    &&& !cache.initial_reads.nonces.contains_key(address)
                    &&& !cache.writes.nonces.contains_key(address)
                },
            }
        }),
{
    lemma_batches(start, events);
    let block_hash = after(start, events).state->Executing_block_hash;
    if let Some(params) = batch_of_the_block(events) {
        let cache = choose|cache: ExecutorInitialCache|
            are_values_of(cache, params) && starting_cache(start, events) == #[trigger] new_block_cache(
                Some(cache),
                block_hash,
            );
        a_batch_seeds_its_block(cache, block_hash, entry, value, address, nonce);
    } else {
        a_block_without_a_batch_starts_with_the_hash_alone(block_hash, entry, value, address);
    }
}

/// In any run, the header of an open block is the last one that was made, with the gas prices of the
/// batch if the block was started for one.
pub proof fn a_block_has_the_gas_prices_of_its_batch(start: ExecutorThreadView, events: Seq<Event>)
    requires
        is_new(start),
        is_run(start, events),
        after(start, events).state is Executing,
        !(after(start, events).phase is Stopped),
    ensures
        is_header_for(
            after(start, events).state->Executing_exec_ctx,
            last_header(events),
            batch_of_the_block(events),
        ),
{
    lemma_batches(start, events);
}

/// In any run, what is replayed is the batch that the block was started for: each of its transactions
/// and each of its results, in its place.
pub proof fn the_batch_of_the_block_is_replayed(start: ExecutorThreadView, events: Seq<Event>)
    requires
        is_new(start),
        is_run(start, events),
        events.len() > 0,
        events.last() is Replay,
    ensures
        ({
            let outcome = events.last()->outcome;
            batch_of_the_block(events) matches Some(params) && {
                &&& outcome.executed_txs@.len() == params.transactions@.len()
                &&& outcome.blockifier_results@.len() == params.transaction_results@.len()
                &&& forall|i: int|
                    0 <= i < params.transactions@.len() ==> (#[trigger] outcome.executed_txs@[i]).0
                        == batch_transaction(params.transactions@[i])
                &&& forall|i: int|
                    0 <= i < params.transaction_results@.len() ==> is_replay_of(
                        #[trigger] outcome.blockifier_results@[i],
                        params.transaction_results@[i],
                    )
            }
        }),
{
    lemma_batches(start, events.drop_last());
    every_run_keeps_order(start, events.drop_last());
    a_replayed_batch_stands_for_its_transactions(
        events.last()->outcome,
        after(start, events.drop_last()).append_batch_state->0,
    );
}

/// In any run, when a block is ended, what the executor holds besides the block's own changes are the
/// changes of each result of the batch that the block was started for, in order; none, if it was
/// started for none.
pub proof fn a_block_ends_with_the_changes_of_its_batch(start: ExecutorThreadView, events: Seq<Event>)
    requires
        is_new(start),
        is_run(start, events),
        after(start, events).phase is CollectingDiff,
    ensures
        ({
            let held = after(start, events).extend_state_diffs;
            match batch_of_the_block(events) {
                Some(params) => {
                    &&& held.len() == params.transaction_results@.len()
                    &&& forall|i: int|
                        0 <= i < held.len() ==> #[trigger] held[i] == changes_of(
                            params.transaction_results@[i].1,
                        )
                },
                None => held.len() == 0,
            }
        }),
{
    lemma_batches(start, events);
    every_run_keeps_order(start, events);
}

/// In any run, the block that was started for a batch takes nothing but the batch: once its start was
/// announced the batch is replayed, no other transactions are taken or executed while it is open, and
/// whenever the time is read, it is closed.
pub proof fn a_block_for_a_batch_takes_nothing_else(start: ExecutorThreadView, events: Seq<Event>)
    requires
        is_new(start),
        is_run(start, events),
        after(start, events).state is Executing,
        !(after(start, events).phase is Stopped),
        batch_of_the_block(events) is Some,
    ensures
        ({
            let thread = after(start, events);
            &&& !(thread.phase is Taking)
            &&& !(thread.phase is Executing)
            &&& thread.phase is SendingStart ==> step(thread, Event::StartSent(true)).phase is Replaying
            &&& thread.phase is ReadingClock ==> forall|now: u128|
                (#[trigger] step(thread, Event::Clock { now })).phase is Finalizing
        }),
{
    lemma_batches(start, events);
}

/// A batch that a command tells to append is accepted: the open block, if there is one, is ended first,
/// and the batch is the next that a block is started for.
pub proof fn an_appended_batch_is_next(
    start: ExecutorThreadView,
    events: Seq<Event>,
    params: AppendBatchParams,
)
    requires
        is_new(start),
        is_run(start, events),
        after(start, events).phase is Taking,
    ensures
        ({
            let thread = step(
                after(start, events),
                Event::AppendBatch { params, values_read: true },
            );
            if after(start, events).state is Executing {
                thread.phase is Finalizing
            } else {
                thread.phase is Acknowledging
            }
        }),
        batch_to_append(events.push(Event::AppendBatch { params, values_read: true })) == Some(params),
{
}

/// The time at which the open block, or else the next one, is to be closed: the configured time after
/// the last block ended.
pub open spec fn is_due(start: ExecutorThreadView, events: Seq<Event>) -> int
    decreases events.len(),
{
    if events.len() == 0 {
        start.next_block_deadline as int
    } else {
        match events.last() {
            Event::EndBlockSent { sent: true, now } => now + start.config.block_time,
            _ => is_due(start, events.drop_last()),
        }
    }
}

/// In any run the deadline of a block is the configured time after the end of the last one, and
/// nothing else moves it; the configuration stays.
pub proof fn a_block_is_due_after_its_time(start: ExecutorThreadView, events: Seq<Event>)
    requires
        is_run(start, events),
    ensures
        after(start, events).next_block_deadline == is_due(start, events),
        after(start, events).config == start.config,
    decreases events.len(),
{
    if events.len() > 0 {
        a_block_is_due_after_its_time(start, events.drop_last());
    }
}

/// When the time is read, a block is ended if its time is up, if it is full or on command, and only
/// then.
pub proof fn a_block_is_closed_when_its_time_is_up(
    thread: ExecutorThreadView,
    block_full: bool,
    now: u128,
    later: u128,
)
    requires
        thread.phase == (Phase::ReadingClock { block_full }),
    ensures
        now >= thread.next_block_deadline ==> step(thread, Event::Clock { now }).phase is Finalizing,
        block_full || thread.force_close ==> step(thread, Event::Clock { now }).phase is Finalizing,
        now < thread.next_block_deadline && !block_full && !thread.force_close ==> !(step(
            thread,
            Event::Clock { now },
        ).phase is Finalizing),
        now <= later && step(thread, Event::Clock { now }).phase is Finalizing ==> step(
            thread,
            Event::Clock { now: later },
        ).phase is Finalizing,
{
}

/// A block is full exactly if there were fewer results than transactions; the transactions without
/// results wait, the others were executed.
pub proof fn a_block_is_full_when_results_are_missing(
    thread: ExecutorThreadView,
    results: Seq<TransactionExecutionResult>,
)
    requires
        thread.wf(),
        awaits(thread, Event::Executed { results }),
    ensures
        ({
            let next = step(thread, Event::Executed { results });
            let full = results.len() < thread.to_exec.len();
            &&& results.len() > 0 ==> next.phase == (Phase::SendingBatch { block_full: full })
            &&& results.len() == 0 ==> next.phase == (Phase::ReadingClock { block_full: full })
            &&& next.to_exec.len() == thread.to_exec.len() - results.len()
            &&& forall|i: int|
                0 <= i < next.to_exec.len() ==> #[trigger] next.to_exec[i] == thread.to_exec[i
                    + results.len()]
        }),
{
}

/// Results are sent whenever transactions were executed, and the block is as full afterwards as it was
/// before.
pub proof fn results_are_sent_before_the_time_is_read(thread: ExecutorThreadView, block_full: bool)
    requires
        thread.phase == (Phase::SendingBatch { block_full }),
    ensures
        step(thread, Event::BatchSent(true)).phase == (Phase::ReadingClock { block_full }),
        step(thread, Event::BatchSent(false)).phase is Stopped,
{
}

/// Whether a command to close the block came that no block was closed for yet.
pub open spec fn is_close_commanded(events: Seq<Event>) -> bool
    decreases events.len(),
{
    events.len() > 0 && match events.last() {
        Event::CloseBlock => true,
        Event::BlockFinished(_) => false,
        _ => is_close_commanded(events.drop_last()),
    }
}

/// In any run, after a command to close the block the block is closed the next time that the time is
/// read, whatever the time is. The command is acknowledged at once.
#[verifier::rlimit(40)]
pub proof fn a_command_closes_the_block(start: ExecutorThreadView, events: Seq<Event>, now: u128)
    requires
        is_new(start),
        is_run(start, events),
        !(after(start, events).phase is Stopped),
    ensures
        ({
            let thread = after(start, events);
            &&& is_close_commanded(events) ==> thread.force_close
            &&& is_close_commanded(events) && thread.phase is ReadingClock ==> step(
                thread,
                Event::Clock { now },
            ).phase is Finalizing
            &&& thread.phase is Taking ==> step(thread, Event::CloseBlock).phase is Acknowledging
        }),
    decreases events.len(),
{
    if events.len() > 0 {
        a_command_closes_the_block(start, events.drop_last(), now);
        every_run_keeps_order(start, events.drop_last());
    }
}

/// Without a command a block is not closed before its time unless it is full: nothing else forces it.
pub proof fn only_commands_force_a_block_to_close(start: ExecutorThreadView, events: Seq<Event>)
    requires
        is_new(start),
        is_run(start, events),
        !(after(start, events).phase is Stopped),
        after(start, events).force_close,
    ensures
        exists|i: int|
            0 <= i < events.len() && ((#[trigger] events[i]) is CloseBlock || events[i] is AppendBatch),
    decreases events.len(),
{
    if events.len() > 0 {
        let before = events.drop_last();
        if after(start, before).force_close {
            only_commands_force_a_block_to_close(start, before);
            let i = choose|i: int|
                0 <= i < before.len() && ((#[trigger] before[i]) is CloseBlock || before[i] is AppendBatch);
            assert(events[i] == before[i]);
        } else if events.last() is CloseBlock || events.last() is AppendBatch {
            assert(events[events.len() - 1] == events.last());
        } else {
            lemma_batches(start, before);
            every_run_keeps_order(start, before);
            assert(batch_to_append(before) is Some);
            lemma_batch_came_by_command(before);
            let i = choose|i: int| 0 <= i < before.len() && (#[trigger] before[i]) is AppendBatch;
            assert(events[i] == before[i]);
        }
    }
}

/// A batch that is to be appended was told to be.
proof fn lemma_batch_came_by_command(events: Seq<Event>)
    requires
        batch_to_append(events) is Some,
    ensures
        exists|i: int| 0 <= i < events.len() && (#[trigger] events[i]) is AppendBatch,
    decreases events.len(),
{
    if events.last() is AppendBatch {
        assert(events[events.len() - 1] == events.last());
    } else {
        lemma_batch_came_by_command(events.drop_last());
        let i = choose|i: int|
            0 <= i < events.drop_last().len() && (#[trigger] events.drop_last()[i]) is AppendBatch;
        assert(events[i] == events.drop_last()[i]);
    }
}

/// Whether the event tells that something failed, or that nobody listens or will send any more.
pub open spec fn is_failure(event: Event) -> bool {
    match event {
        Event::BatchesClosed => true,
        Event::Batch { arrivals, consumed } => exists|i: int|
            0 <= i < arrivals.len() && is_failing(#[trigger] arrivals[i], consumed[i]),
        Event::AppendBatch { values_read, .. } => !values_read,
        Event::Context(context) => context is None,
        Event::ExecutorBuilt(built) => !built,
        Event::BlockHash(found) => found is None,
        Event::CacheSeeded(seeded) => !seeded,
        Event::StartSent(sent) => !sent,
        Event::BatchSent(sent) => !sent,
        Event::Finalized(finalized) => !finalized,
        Event::EndBlockSent { sent, .. } => !sent,
        Event::StateDiff(collected) => !collected,
        Event::BlockFinished(finished) => !finished,
        _ => false,
    }
}

/// The executor stops on every failure, and on nothing else.
pub proof fn only_failures_stop_the_executor(thread: ExecutorThreadView, event: Event)
    requires
        awaits(thread, event),
    ensures
        step(thread, event).phase is Stopped <==> is_failure(event),
{
    if let Event::Batch { arrivals, consumed } = event {
        the_first_failing_arrival_is_reported(arrivals, consumed);
        if admission_failure(arrivals, consumed) is None {
            assert forall|i: int| 0 <= i < arrivals.len() implies !is_failing(
                #[trigger] arrivals[i],
                consumed[i],
            ) by {}
        } else {
            let n = n_gone_through(arrivals, consumed) as int;
            assert(is_failing(arrivals[n], consumed[n]));
        }
    }
}

/// After transactions arrived, the executor goes on as it stands: a block is started if there is none,
/// unless there are to be no empty blocks and there is nothing to execute; a batch is never executed
/// with others.
pub proof fn arrivals_lead_on(
    thread: ExecutorThreadView,
    arrivals: Seq<Arrival>,
    consumed: Seq<Result<bool, String>>,
)
    requires
        thread.wf(),
        thread.config.batch_size > 0,
        awaits(thread, Event::Batch { arrivals, consumed }),
        !is_failure(Event::Batch { arrivals, consumed }),
    ensures
        ({
            let next = step(thread, Event::Batch { arrivals, consumed });
            &&& thread.state is Executing ==> next.phase is Executing
            &&& thread.state is NewBlock && (next.to_exec.len() > 0 || !thread.config.no_empty_blocks)
                ==> next.phase is CreatingContext
            &&& thread.state is NewBlock && next.to_exec.len() == 0 && thread.config.no_empty_blocks
                ==> next.phase is Taking
            &&& next.to_exec.len() >= thread.to_exec.len()
            &&& forall|i: int|
                0 <= i < thread.to_exec.len() ==> #[trigger] next.to_exec[i] == thread.to_exec[i]
        }),
{
    only_failures_stop_the_executor(thread, Event::Batch { arrivals, consumed });
}

/// The transactions that were executed for the last block that was started, each with what executing
/// it came to.
pub open spec fn block_executed(start: ExecutorThreadView, events: Seq<Event>) -> Seq<Executed>
    decreases events.len(),
{
    if events.len() == 0 {
        Seq::empty()
    } else {
        let thread = after(start, events.drop_last());
        match events.last() {
            Event::BlockHash(Some(_)) => Seq::empty(),
            Event::Executed { results } => block_executed(start, events.drop_last()) + paired(
                thread.to_exec.take(results.len() as int),
                results,
            ),
            Event::Replayed => block_executed(start, events.drop_last()) + paired(
                thread.replayed->0.executed_txs@,
                thread.replayed->0.blockifier_results@,
            ),
            _ => block_executed(start, events.drop_last()),
        }
    }
}

/// In any run the executor counts the gas of all transactions that were executed for the last block
/// that was started, over all rounds: also after the block ended, until the next one is started.
pub proof fn all_gas_of_a_block_is_counted(start: ExecutorThreadView, events: Seq<Event>)
    requires
        is_new(start),
        is_run(start, events),
    ensures
        after(start, events).l2_gas_consumed_block == gas_used(block_executed(start, events)),
    decreases events.len(),
{
    if events.len() > 0 {
        let before = events.drop_last();
        let thread = after(start, before);
        all_gas_of_a_block_is_counted(start, before);
        match events.last() {
            Event::Executed { results } => {
                counts_add_up(
                    block_executed(start, before),
                    paired(thread.to_exec.take(results.len() as int), results),
                );
            },
            Event::Replayed => {
                counts_add_up(
                    block_executed(start, before),
                    paired(thread.replayed->0.executed_txs@, thread.replayed->0.blockifier_results@),
                );
            },
            _ => {},
        }
    }
}

/// In any run, whenever the header of a block is asked for, it is asked for with the gas of all
/// transactions of the block before.
pub proof fn a_header_is_made_with_the_gas_of_the_last_block(
    start: ExecutorThreadView,
    events: Seq<Event>,
)
    requires
        is_new(start),
        is_run(start, events),
        after(start, events).state is NewBlock,
    ensures
        after_taking(after(start, events)).1 matches Action::CreateContext { previous_l2_gas_used }
            && previous_l2_gas_used == gas_used(block_executed(start, events)),
{
    all_gas_of_a_block_is_counted(start, events);
}

/// In any run the classes of an open block are those that its transactions declared, over all rounds:
/// each that some of them declared, as the last one declared it, and no others.
pub proof fn all_classes_of_a_block_are_kept(
    start: ExecutorThreadView,
    events: Seq<Event>,
    class_hash: ClassHash,
)
    requires
        is_new(start),
        is_run(start, events),
        after(start, events).state is Executing,
    ensures
        ({
            let declared = after(start, events).state->Executing_declared_classes;
            let executed = block_executed(start, events);
            &&& declared.contains_key(class_hash) ==> exists|i: int|
                #![trigger executed[i]]
                0 <= i < executed.len() && declared_it(executed[i], class_hash, declared[class_hash])
                    && forall|j: int, class: ContractClass|
                    i < j < executed.len() ==> !#[trigger] declared_it(executed[j], class_hash, class)
            &&& !declared.contains_key(class_hash) ==> forall|i: int, class: ContractClass|
                0 <= i < executed.len() ==> !#[trigger] declared_it(executed[i], class_hash, class)
        }),
{
    lemma_classes(start, events);
    the_last_declaration_counts(block_executed(start, events), class_hash);
}

proof fn lemma_classes(start: ExecutorThreadView, events: Seq<Event>)
    requires
        is_new(start),
        is_run(start, events),
        after(start, events).state is Executing,
    ensures
        after(start, events).state->Executing_declared_classes == declared_classes(
            block_executed(start, events),
        ),
    decreases events.len(),
{
    let before = events.drop_last();
    let thread = after(start, before);
    every_run_keeps_order(start, before);
    if thread.state is Executing {
        lemma_classes(start, before);
    }
    match events.last() {
        Event::Executed { results } => {
            declarations_add_up(
                block_executed(start, before),
                paired(thread.to_exec.take(results.len() as int), results),
            );
        },
        Event::Replayed => {
            declarations_add_up(
                block_executed(start, before),
                paired(thread.replayed->0.executed_txs@, thread.replayed->0.blockifier_results@),
            );
        },
        _ => {},
    }
}

/// Executing more transactions never takes a class away that the block declared.
pub proof fn no_class_is_forgotten(thread: ExecutorThreadView, event: Event, class_hash: ClassHash)
    requires
        thread.wf(),
        awaits(thread, event),
        thread.state is Executing,
        step(thread, event).state is Executing,
        thread.state->Executing_declared_classes.contains_key(class_hash),
    ensures
        step(thread, event).state->Executing_declared_classes.contains_key(class_hash),
{
}

/// In any run an open block is empty exactly if none of the transactions that were executed for it
/// could be added to it.
pub proof fn a_block_is_empty_until_something_is_added(start: ExecutorThreadView, events: Seq<Event>)
    requires
        is_new(start),
        is_run(start, events),
        after(start, events).state is Executing,
    ensures
        after(start, events).block_empty <==> forall|i: int|
            0 <= i < block_executed(start, events).len() ==> (#[trigger] block_executed(start, events)[i]).1
                is None,
    decreases events.len(),
{
    let executed = block_executed(start, events);
    lemma_block_empty(start, events);
    lemma_none_added(executed);
    if n_added(executed) == 0 {
        assert forall|i: int| 0 <= i < executed.len() implies (#[trigger] executed[i]).1 is None by {
            assert(!was_added(executed[i]));
        }
    }
}

proof fn lemma_block_empty(start: ExecutorThreadView, events: Seq<Event>)
    requires
        is_new(start),
        is_run(start, events),
        after(start, events).state is Executing,
    ensures
        after(start, events).block_empty <==> n_added(block_executed(start, events)) == 0,
    decreases events.len(),
{
    let before = events.drop_last();
    let thread = after(start, before);
    every_run_keeps_order(start, before);
    counts_add_up(Seq::empty(), Seq::empty());
    if thread.state is Executing {
        lemma_block_empty(start, before);
    }
    match events.last() {
        Event::Executed { results } => {
            counts_add_up(
                block_executed(start, before),
                paired(thread.to_exec.take(results.len() as int), results),
            );
        },
        Event::Replayed => {
            counts_add_up(
                block_executed(start, before),
                paired(thread.replayed->0.executed_txs@, thread.replayed->0.blockifier_results@),
            );
        },
        _ => {},
    }
}

/// The arrivals that were admitted since the last block ended.
pub open spec fn admitted_since_the_end(start: ExecutorThreadView, events: Seq<Event>) -> Seq<Arrival>
    decreases events.len(),
{
    if events.len() == 0 {
        Seq::empty()
    } else {
        match events.last() {
            Event::StateDiff(true) => Seq::empty(),
            Event::Batch { arrivals, consumed } => admitted_since_the_end(start, events.drop_last())
                + newly_admitted(after(start, events.drop_last()), arrivals, consumed),
            _ => admitted_since_the_end(start, events.drop_last()),
        }
    }
}

/// In any run the messages on record are those that were admitted since the last block ended: all of
/// them, and no others.
pub proof fn the_messages_of_a_block_are_on_record(start: ExecutorThreadView, events: Seq<Event>)
    requires
        is_new(start),
        is_run(start, events),
    ensures
        after(start, events).state.consumed() == numbers_in(admitted_since_the_end(start, events)),
    decreases events.len(),
{
    let thread = after(start, events);
    let since = admitted_since_the_end(start, events);
    if events.len() == 0 {
        assert(thread.state.consumed() =~= numbers_in(since));
    } else {
        let before = events.drop_last();
        the_messages_of_a_block_are_on_record(start, before);
        match events.last() {
            Event::Batch { arrivals, consumed } => {
                let n = n_gone_through(arrivals, consumed) as int;
                lemma_gone_through_is_bounded(arrivals, consumed);
                let seen = after(start, before).state.consumed();
                no_message_is_admitted_twice(seen, arrivals.take(n), consumed.take(n));
                lemma_numbers_add(
                    admitted_since_the_end(start, before),
                    newly_admitted(after(start, before), arrivals, consumed),
                );
            },
            Event::StateDiff(true) => {
                assert(thread.state.consumed() =~= numbers_in(since));
            },
            _ => {},
        }
    }
}

/// The messages among two sequences are those of the one and of the other.
proof fn lemma_numbers_add(a: Seq<Arrival>, b: Seq<Arrival>)
    ensures
        numbers_in(a + b) == numbers_in(a).union(numbers_in(b)),
{
    let all = a + b;
    assert forall|number: u64| numbers_in(all).contains(number) <==> numbers_in(a).union(
        numbers_in(b),
    ).contains(number) by {
        if numbers_in(all).contains(number) {
            let i = choose|i: int| 0 <= i < all.len() && number_of((#[trigger] all[i]).0) == Some(number);
            if i < a.len() {
                assert(number_of(a[i].0) == Some(number));
            } else {
                assert(number_of(b[i - a.len()].0) == Some(number));
            }
        }
        if numbers_in(a).contains(number) {
            let i = choose|i: int| 0 <= i < a.len() && number_of((#[trigger] a[i]).0) == Some(number);
            assert(number_of(all[i].0) == Some(number));
        }
        if numbers_in(b).contains(number) {
            let i = choose|i: int| 0 <= i < b.len() && number_of((#[trigger] b[i]).0) == Some(number);
            assert(number_of(all[i + a.len()].0) == Some(number));
        }
    }
    assert(numbers_in(all) =~= numbers_in(a).union(numbers_in(b)));
}

/// A block is started and ended one thing after the other: the header, the executor, the hash, the
/// cache and the announcement; then, at its end, the summary, the announcement, the changes and the
/// hand-over.
pub proof fn blocks_start_and_end_step_by_step(
    thread: ExecutorThreadView,
    context: BlockExecutionContext,
    block_hash: Option<BlockHash>,
    now: u128,
)
    ensures
        thread.phase is CreatingContext ==> step(thread, Event::Context(Some(context))).phase
            is BuildingExecutor,
        thread.phase is BuildingExecutor ==> step(thread, Event::ExecutorBuilt(true)).phase
            == Phase::WaitingForBlockHash(thread.phase->BuildingExecutor_0),
        thread.phase is WaitingForBlockHash ==> {
            let next = step(thread, Event::BlockHash(Some(block_hash)));
            &&& next.phase is SeedingCache
            &&& next.state matches ExecutorThreadStateView::Executing {
                exec_ctx,
                block_hash: held,
                declared_classes,
                consumed_l1_to_l2_nonces,
            }
            &&& exec_ctx == thread.phase->WaitingForBlockHash_0
            &&& held == block_hash
            &&& declared_classes.dom() == Set::<ClassHash>::empty()
            &&& consumed_l1_to_l2_nonces == thread.state.consumed()
        },
        thread.phase is SeedingCache ==> step(thread, Event::CacheSeeded(true)).phase is SendingStart,
        thread.phase is Finalizing ==> step(thread, Event::Finalized(true)).phase is SendingEnd,
        thread.phase is SendingEnd ==> step(thread, Event::EndBlockSent { sent: true, now }).phase
            is CollectingDiff,
        thread.phase is CollectingDiff ==> {
            let next = step(thread, Event::StateDiff(true));
            next.phase is FinishingBlock && next.state is NewBlock
        },
{
}

} // verus!
