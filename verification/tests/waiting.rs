//! What the executor waits for.
use block_production::felt::Felt;
use block_production::transaction::{AdditionalTxInfo, AccountTransaction, BatchToExecute, Transaction};
use block_production::waiting::{
    on_batches_polled, on_commands_polled, on_wait_event, wait_for_hash_of_block_min_10, wait_take_tx_batch,
    BlockHash, ExecutorCommand, WaitBlockHash, WaitEvent, WaitTxBatch, WaitTxBatchOutcome,
};

fn felt(value: u128) -> Felt {
    Felt::new(0, value).unwrap()
}

fn one_transaction() -> BatchToExecute {
    let mut batch = BatchToExecute::default();
    let tx = AccountTransaction { handle: 1, tx_hash: felt(1), declared_class: None };
    batch.push(Transaction::from_batch(tx), AdditionalTxInfo::default());
    batch
}

/// How many transactions the wait ended with.
fn taken(next: WaitTxBatch) -> Option<usize> {
    match next {
        WaitTxBatch::Done(WaitTxBatchOutcome::Batch(batch)) => Some(batch.len()),
        _ => None,
    }
}

fn is_close_block(next: WaitTxBatch) -> bool {
    matches!(next, WaitTxBatch::Done(WaitTxBatchOutcome::Command(ExecutorCommand::CloseBlock)))
}

#[test]
fn a_batch_that_has_arrived_comes_first() {
    assert_eq!(taken(on_batches_polled(Some(one_transaction()))), Some(1));
    assert!(matches!(on_batches_polled(None), WaitTxBatch::PollCommands));
    assert!(is_close_block(on_commands_polled(Some(ExecutorCommand::CloseBlock), true)));
    assert!(is_close_block(on_commands_polled(Some(ExecutorCommand::CloseBlock), false)));
}

#[test]
fn there_is_no_waiting_with_transactions_at_hand() {
    assert_eq!(taken(on_commands_polled(None, false)), Some(0));
    assert!(matches!(on_commands_polled(None, true), WaitTxBatch::Wait));
}

#[test]
fn the_deadline_ends_the_wait_with_no_transactions() {
    assert_eq!(taken(on_wait_event(WaitEvent::DeadlineReached, Some(5))), Some(0));
}

#[test]
fn without_a_deadline_the_wait_goes_on() {
    assert!(matches!(on_wait_event(WaitEvent::DeadlineReached, None), WaitTxBatch::Wait));
    assert!(matches!(on_wait_event(WaitEvent::CommandsClosed, None), WaitTxBatch::Wait));
    assert_eq!(taken(on_wait_event(WaitEvent::Batch(one_transaction()), None)), Some(1));
    assert!(is_close_block(on_wait_event(WaitEvent::Command(ExecutorCommand::CloseBlock), None)));
}

#[test]
fn a_closed_channel_of_batches_ends_it_all() {
    assert!(matches!(
        on_wait_event(WaitEvent::BatchesClosed, Some(5)),
        WaitTxBatch::Done(WaitTxBatchOutcome::Exit)
    ));
}

#[test]
fn the_first_ten_blocks_wait_for_no_hash() {
    for block_n in 0..10 {
        assert_eq!(wait_for_hash_of_block_min_10(block_n), WaitBlockHash::Done(Ok(None)));
    }
    assert_eq!(wait_for_hash_of_block_min_10(10), WaitBlockHash::Query { block_n: 0, subscribed: false });
    assert_eq!(
        wait_for_hash_of_block_min_10(u64::MAX),
        WaitBlockHash::Query { block_n: u64::MAX - 10, subscribed: false }
    );
}

#[test]
fn a_hash_is_looked_up_again_after_subscribing() {
    let found = WaitBlockHash::Done(Ok(Some(BlockHash { block_n: 5, block_hash: felt(99) })));
    assert_eq!(wait_for_hash_of_block_min_10(15).on_queried(Ok(Some(felt(99)))), found);
    let wait = wait_for_hash_of_block_min_10(15).on_queried(Ok(None));
    assert_eq!(wait, WaitBlockHash::Subscribe { block_n: 5 });
    let subscribed = || WaitBlockHash::Query { block_n: 5, subscribed: true };
    assert_eq!(wait.on_subscribed(), subscribed());
    assert_eq!(subscribed().on_queried(Ok(Some(felt(99)))), found);
    let wait = subscribed().on_queried(Ok(None));
    assert_eq!(wait, WaitBlockHash::AwaitTip { block_n: 5 });
    assert_eq!(wait.on_tip_changed(), WaitBlockHash::Subscribe { block_n: 5 });
}

#[test]
fn a_lookup_that_fails_ends_the_wait_for_a_hash() {
    let failed = WaitBlockHash::Done(Err("gone".to_string()));
    assert_eq!(wait_for_hash_of_block_min_10(15).on_queried(Err("gone".to_string())), failed);
    let wait = wait_for_hash_of_block_min_10(15).on_queried(Ok(None)).on_subscribed();
    assert_eq!(wait.on_queried(Err("gone".to_string())), failed);
}

#[test]
fn batches_are_looked_for_first() {
    assert!(matches!(wait_take_tx_batch(), WaitTxBatch::PollBatches));
}
