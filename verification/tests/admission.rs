//! Which transactions are admitted.
use block_production::admission::{messages_to_check, take_in};
use block_production::executor::{ExecutorError, ExecutorThreadState};
use block_production::felt::Felt;
use block_production::keys::Nonce;
use block_production::transaction::{
    message_number, AccountTransaction, AdditionalTxInfo, BatchToExecute, Transaction,
};

fn felt(value: u128) -> Felt {
    Felt::new(0, value).unwrap()
}

fn account(handle: u64) -> Transaction {
    Transaction::from_batch(AccountTransaction { handle, tx_hash: felt(u128::from(handle)), declared_class: None })
}

fn message(handle: u64, nonce: u128) -> Transaction {
    Transaction::L1Handler { handle, tx_hash: felt(u128::from(handle)), nonce: Nonce(felt(nonce)) }
}

fn batch(txs: &[Transaction]) -> BatchToExecute {
    let mut batch = BatchToExecute::with_capacity(txs.len());
    for (i, tx) in txs.iter().enumerate() {
        batch.push(*tx, AdditionalTxInfo { handle: Some(i as u64) });
    }
    batch
}

fn handles(batch: &BatchToExecute) -> Vec<u64> {
    batch
        .txs
        .iter()
        .map(|(tx, _)| match tx {
            Transaction::Account { tx, .. } => tx.handle,
            Transaction::L1Handler { handle, .. } => *handle,
        })
        .collect()
}

fn unconsumed(n: usize) -> Vec<Result<bool, String>> {
    (0..n).map(|_| Ok(false)).collect()
}

#[test]
fn nonces_are_numbers_up_to_64_bits() {
    assert_eq!(message_number(Nonce(felt(0))), Some(0));
    assert_eq!(message_number(Nonce(felt(u128::from(u64::MAX)))), Some(u64::MAX));
    assert_eq!(message_number(Nonce(felt(u128::from(u64::MAX) + 1))), None);
    assert_eq!(message_number(Nonce(Felt::new(1, 0).unwrap())), None);
}

#[test]
fn messages_are_the_ones_to_check() {
    let arrivals = batch(&[account(1), message(2, 40), message(3, 1 << 64)]);
    assert_eq!(messages_to_check(&arrivals), vec![None, Some(40), None]);
}

#[test]
fn duplicates_of_messages_stay_out() {
    let mut state = ExecutorThreadState::initial_state();
    let mut to_exec = batch(&[account(0)]);
    let arrivals = batch(&[message(1, 40), account(2), message(3, 40), message(4, 41), account(2)]);
    let outcome = take_in(&mut state, &mut to_exec, arrivals, unconsumed(5));
    assert!(outcome.is_ok());
    assert_eq!(handles(&to_exec), vec![0, 1, 2, 4, 2]);
    assert_eq!(to_exec.txs[3].1, AdditionalTxInfo { handle: Some(3) });
    assert_eq!(state.consumed_l1_to_l2_nonces().len(), 2);
    let outcome = take_in(&mut state, &mut to_exec, batch(&[message(5, 41)]), unconsumed(1));
    assert!(outcome.is_ok());
    assert_eq!(to_exec.len(), 5);
}

#[test]
fn messages_consumed_in_earlier_blocks_stay_out() {
    let mut state = ExecutorThreadState::initial_state();
    let mut to_exec = BatchToExecute::default();
    let arrivals = batch(&[message(1, 40), message(2, 41)]);
    let outcome = take_in(&mut state, &mut to_exec, arrivals, vec![Ok(true), Ok(false)]);
    assert!(outcome.is_ok());
    assert_eq!(handles(&to_exec), vec![2]);
    assert!(!state.consumed_l1_to_l2_nonces().contains(&40));
    assert!(state.consumed_l1_to_l2_nonces().contains(&41));
}

#[test]
fn the_first_failure_is_reported() {
    let failing: Vec<Result<bool, String>> = vec![Ok(false), Err("gone".to_string()), Ok(false)];
    let arrivals = batch(&[message(1, 40), message(2, 41), message(3, 1 << 64)]);
    let outcome =
        take_in(&mut ExecutorThreadState::initial_state(), &mut BatchToExecute::default(), arrivals, failing);
    assert!(matches!(outcome, Err(ExecutorError::CheckNonce(text)) if text == "gone"));
    let failing: Vec<Result<bool, String>> = vec![Ok(false), Err("gone".to_string())];
    let arrivals = batch(&[message(3, 1 << 64), message(2, 41)]);
    let outcome =
        take_in(&mut ExecutorThreadState::initial_state(), &mut BatchToExecute::default(), arrivals, failing);
    assert!(matches!(outcome, Err(ExecutorError::NonceConversion)));
    let ignored: Vec<Result<bool, String>> = vec![Err("not asked".to_string())];
    let outcome = take_in(
        &mut ExecutorThreadState::initial_state(),
        &mut BatchToExecute::default(),
        batch(&[account(1)]),
        ignored,
    );
    assert!(outcome.is_ok());
}

#[test]
fn batches_are_taken_from_the_front() {
    let mut to_exec = batch(&[account(1), account(2), account(3)]);
    assert!(!to_exec.is_empty());
    let front = to_exec.remove_n_front(2);
    assert_eq!(handles(&front), vec![1, 2]);
    assert_eq!(handles(&to_exec), vec![3]);
    assert!(to_exec.remove_n_front(0).is_empty());
    assert_eq!(AdditionalTxInfo::default().handle, None);
}
