//! The executor, driven from outside.
use block_production::append_batch::{
    AppendBatchParams, ExecutionResources, GasPrices, GasVector, InvokeTransactionReceipt, TransactionReceipt,
};
use block_production::assoc_map::AssocMap;
use block_production::executor::{
    BlockExecutionContext, ExecutorConfig, ExecutorError, ExecutorThreadState,
};
use block_production::felt::Felt;
use block_production::keys::{ClassHash, ContractAddress, Nonce, StorageKey};
use block_production::state::{CommitmentStateDiff, StateMaps};
use block_production::thread::{Action, ExecutorThread, Phase};
use block_production::transaction::{
    AccountTransaction, AdditionalTxInfo, BatchToExecute, ContractClass, DeclaredClass, ExecutionDetails,
    Transaction, TransactionExecutionInfo, TransactionExecutionResult,
};
use block_production::waiting::BlockHash;

const BLOCK_TIME: u128 = 1_000;

fn felt(value: u128) -> Felt {
    Felt::new(0, value).unwrap()
}

fn config() -> ExecutorConfig {
    ExecutorConfig { batch_size: 3, block_time: BLOCK_TIME, no_empty_blocks: false }
}

fn tx(handle: u64) -> Transaction {
    Transaction::from_batch(AccountTransaction { handle, tx_hash: felt(u128::from(handle)), declared_class: None })
}

fn declaring(handle: u64, class_hash: u128) -> Transaction {
    Transaction::from_batch(AccountTransaction {
        handle,
        tx_hash: felt(u128::from(handle)),
        declared_class: Some(DeclaredClass {
            class_hash: ClassHash(felt(class_hash)),
            contract_class: ContractClass { handle },
        }),
    })
}

fn message(handle: u64, nonce: u128) -> Transaction {
    Transaction::L1Handler { handle, tx_hash: felt(u128::from(handle)), nonce: Nonce(felt(nonce)) }
}

fn batch(txs: &[Transaction]) -> BatchToExecute {
    let mut batch = BatchToExecute::default();
    for tx in txs {
        batch.push(*tx, AdditionalTxInfo::default());
    }
    batch
}

fn unconsumed(n: usize) -> Vec<Result<bool, String>> {
    (0..n).map(|_| Ok(false)).collect()
}

fn success(l2_gas: u128) -> TransactionExecutionResult {
    let info = TransactionExecutionInfo { l2_gas, reverted: false, details: ExecutionDetails::Executed(0) };
    Ok((info, StateMaps::new()))
}

fn context(block_number: u64) -> BlockExecutionContext {
    BlockExecutionContext {
        handle: 0,
        block_number,
        gas_prices: GasPrices { eth_l1_gas_price: 5, ..GasPrices::default() },
    }
}

fn failed<T>() -> Result<T, String> {
    Err("failed".to_string())
}

/// A batch of one transaction that used 70 gas and set nonce 2 of contract 50.
fn append_params() -> AppendBatchParams {
    let mut changes = CommitmentStateDiff {
        address_to_class_hash: AssocMap::new(),
        address_to_nonce: AssocMap::new(),
        storage_updates: AssocMap::new(),
        class_hash_to_compiled_class_hash: AssocMap::new(),
    };
    changes.address_to_nonce.insert(ContractAddress::from_u64(50), Nonce(felt(2)));
    changes.address_to_class_hash.insert(ContractAddress::from_u64(50), ClassHash(felt(9)));
    let receipt = TransactionReceipt::Invoke(InvokeTransactionReceipt {
        execution_resources: ExecutionResources {
            total_gas_consumed: GasVector { l1_gas: 0, l1_data_gas: 0, l2_gas: 70 },
            ..ExecutionResources::default()
        },
        ..InvokeTransactionReceipt::default()
    });
    let mut initial_nonces: AssocMap<Felt, Felt> = AssocMap::new();
    initial_nonces.insert(felt(50), felt(1));
    let mut current_nonces: AssocMap<Felt, Felt> = AssocMap::new();
    current_nonces.insert(felt(50), felt(2));
    AppendBatchParams {
        transactions: vec![AccountTransaction { handle: 500, tx_hash: felt(500), declared_class: None }],
        transaction_results: vec![(receipt, changes)],
        initial_storage: AssocMap::new(),
        current_storage: AssocMap::new(),
        initial_nonces,
        current_nonces,
        gas_prices: GasPrices { eth_l1_gas_price: 6, ..GasPrices::default() },
    }
}

/// Starts a block, from the request for its header on.
fn start_block(thread: &mut ExecutorThread, block_number: u64) -> Action {
    assert!(matches!(
        thread.on_context(Ok(context(block_number))),
        Action::BuildExecutor { exec_ctx } if exec_ctx.block_number == block_number
    ));
    assert!(matches!(
        thread.on_executor_built(Ok(())),
        Action::WaitForBlockHash { block_n } if block_n == block_number
    ));
    assert!(thread.can_start_block());
    assert!(matches!(thread.on_block_hash(Ok(None)), Action::SeedCache(_)));
    assert!(matches!(thread.on_cache_seeded(Ok(())), Action::SendStartNewBlock { .. }));
    thread.on_start_sent(true)
}

/// Ends a block, from the request to finalize it on, and returns what follows.
fn end_block(thread: &mut ExecutorThread, now: u128) -> Action {
    assert!(matches!(thread.on_finalized(Ok(())), Action::SendEndBlock));
    assert!(matches!(thread.on_end_block_sent(true, now), Action::CollectStateDiff));
    assert!(matches!(thread.on_state_diff(Ok(StateMaps::new())), Action::FinishBlock(_)));
    thread.on_block_finished(Ok(()))
}

/// An executor with an open block, in which transactions are executed next.
fn executing(txs: &[Transaction]) -> ExecutorThread {
    let (mut thread, _) = ExecutorThread::new(config(), 0);
    let action = thread.on_batch(batch(txs), unconsumed(txs.len()));
    assert!(matches!(action, Action::CreateContext { .. }));
    assert!(matches!(start_block(&mut thread, 3), Action::ExecuteTxs));
    thread
}

#[test]
fn an_ordinary_block_from_start_to_end() {
    let (mut thread, action) = ExecutorThread::new(config(), 100);
    assert!(matches!(action, Action::Take { deadline: Some(1_100), should_wait: true }));
    let action = thread.on_batch(batch(&[tx(1), declaring(2, 7)]), unconsumed(2));
    assert!(matches!(action, Action::CreateContext { previous_l2_gas_used: 0 }));
    assert!(matches!(
        thread.on_context(Ok(context(15))),
        Action::BuildExecutor { exec_ctx } if exec_ctx == context(15)
    ));
    assert!(matches!(thread.on_executor_built(Ok(())), Action::WaitForBlockHash { block_n: 15 }));
    let hash = BlockHash { block_n: 5, block_hash: felt(99) };
    match thread.on_block_hash(Ok(Some(hash))) {
        Action::SeedCache(cache) => assert_eq!(
            cache.get_storage_at(ContractAddress::from_u64(1), StorageKey::from_u64(5)),
            Some(felt(99))
        ),
        _ => panic!("the cache is next"),
    }
    assert!(matches!(
        thread.on_cache_seeded(Ok(())),
        Action::SendStartNewBlock { exec_ctx } if exec_ctx == context(15)
    ));
    assert!(matches!(thread.on_start_sent(true), Action::ExecuteTxs));
    assert!(thread.block_empty);
    let results = vec![success(10), success(20)];
    assert!(thread.can_add(&results));
    match thread.on_executed(results, 7) {
        Action::SendBatchExecuted(result) => {
            assert_eq!(result.executed_txs.txs, batch(&[tx(1), declaring(2, 7)]).txs);
            assert_eq!(result.blockifier_results.len(), 2);
            assert_eq!(result.stats.n_added_to_block, 2);
            assert_eq!(result.stats.declared_classes, 1);
            assert_eq!(result.stats.l2_gas_consumed, 30);
            assert_eq!(result.stats.exec_duration, 7);
        }
        _ => panic!("the results are next"),
    }
    assert!(!thread.block_empty);
    assert_eq!(thread.l2_gas_consumed_block, 30);
    assert!(matches!(thread.on_batch_sent(true), Action::ReadClock));
    assert!(matches!(
        thread.on_clock(1_099),
        Action::Take { deadline: Some(1_100), should_wait: true }
    ));
    let action = thread.on_batch(BatchToExecute::default(), vec![]);
    assert!(matches!(action, Action::ExecuteTxs));
    assert!(matches!(thread.on_executed(vec![], 0), Action::ReadClock));
    assert!(matches!(thread.on_clock(1_100), Action::Finalize));
    assert!(matches!(thread.on_finalized(Ok(())), Action::SendEndBlock));
    assert!(matches!(thread.on_end_block_sent(true, 1_200), Action::CollectStateDiff));
    match thread.on_state_diff(Ok(StateMaps::new())) {
        Action::FinishBlock(finished) => {
            assert_eq!(
                finished.declared_classes.get(&ClassHash(felt(7))),
                Some(&ContractClass { handle: 2 })
            );
            assert!(finished.consumed_l1_to_l2_nonces.is_empty());
        }
        _ => panic!("the block is handed over next"),
    }
    assert!(matches!(
        thread.on_block_finished(Ok(())),
        Action::Take { deadline: Some(2_200), should_wait: true }
    ));
    assert!(thread.block_empty);
    let action = thread.on_batch(batch(&[tx(3)]), unconsumed(1));
    assert!(matches!(action, Action::CreateContext { previous_l2_gas_used: 30 }));
    assert!(matches!(start_block(&mut thread, 3), Action::ExecuteTxs));
    assert_eq!(thread.l2_gas_consumed_block, 0);
}

#[test]
fn a_full_batch_is_not_waited_on() {
    let (mut thread, _) = ExecutorThread::new(config(), 0);
    thread.on_batch(batch(&[tx(1), tx(2), tx(3), tx(4)]), unconsumed(4));
    start_block(&mut thread, 3);
    let action = thread.on_executed(vec![success(1)], 0);
    assert!(matches!(action, Action::SendBatchExecuted(_)));
    thread.on_batch_sent(true);
    assert!(matches!(thread.phase, Phase::ReadingClock { block_full: true }));
    assert!(matches!(thread.on_clock(1), Action::Finalize));
    assert!(matches!(end_block(&mut thread, 1), Action::CreateContext { previous_l2_gas_used: 1 }));
    assert_eq!(thread.to_exec.txs, batch(&[tx(2), tx(3), tx(4)]).txs);
}

#[test]
fn a_batch_that_can_grow_is_filled_without_waiting() {
    let mut thread = executing(&[tx(1), tx(2)]);
    thread.on_executed(vec![success(1)], 0);
    thread.on_batch_sent(true);
    thread.on_clock(1);
    let action = end_block(&mut thread, 1);
    assert!(matches!(action, Action::Take { should_wait: false, .. }));
}

#[test]
fn empty_blocks_wait_for_a_transaction_if_there_are_to_be_none() {
    let config = ExecutorConfig { no_empty_blocks: true, ..config() };
    let (mut thread, action) = ExecutorThread::new(config, 0);
    assert!(matches!(action, Action::Take { deadline: None, should_wait: true }));
    thread.on_batch(batch(&[tx(1)]), unconsumed(1));
    start_block(&mut thread, 3);
    thread.on_executed(vec![success(1)], 0);
    thread.on_batch_sent(true);
    assert!(matches!(thread.on_clock(1), Action::Take { deadline: Some(BLOCK_TIME), .. }));
}

#[test]
fn no_block_is_started_for_nothing_if_there_are_to_be_no_empty_ones() {
    let config = ExecutorConfig { no_empty_blocks: true, ..config() };
    let (mut thread, _) = ExecutorThread::new(config, 0);
    assert!(matches!(
        thread.on_batch(BatchToExecute::default(), vec![]),
        Action::Take { deadline: None, should_wait: true }
    ));
    assert!(matches!(
        thread.on_batch(batch(&[message(1, 40), message(2, 41)]), vec![Ok(true), Ok(true)]),
        Action::Take { deadline: None, should_wait: true }
    ));
    assert!(thread.state.consumed_l1_to_l2_nonces().is_empty());
    assert!(matches!(
        thread.on_batch(batch(&[message(1, 40), message(3, 42)]), vec![Ok(true), Ok(false)]),
        Action::CreateContext { previous_l2_gas_used: 0 }
    ));
    assert_eq!(thread.to_exec.txs, batch(&[message(3, 42)]).txs);
}

#[test]
fn a_command_starts_a_block_even_for_nothing() {
    let config = ExecutorConfig { no_empty_blocks: true, ..config() };
    let (mut thread, _) = ExecutorThread::new(config, 0);
    assert!(matches!(thread.on_close_block(), Action::Acknowledge));
    assert!(matches!(thread.on_acknowledged(), Action::CreateContext { .. }));
}

#[test]
fn an_open_block_goes_on_though_nothing_arrives() {
    let config = ExecutorConfig { no_empty_blocks: true, ..config() };
    let (mut thread, _) = ExecutorThread::new(config, 0);
    thread.on_batch(batch(&[tx(1)]), unconsumed(1));
    start_block(&mut thread, 3);
    thread.on_executed(vec![success(1)], 0);
    thread.on_batch_sent(true);
    thread.on_clock(1);
    assert!(matches!(thread.on_batch(BatchToExecute::default(), vec![]), Action::ExecuteTxs));
    assert!(matches!(thread.on_executed(vec![], 0), Action::ReadClock));
    assert!(matches!(thread.on_clock(BLOCK_TIME), Action::Finalize));
}

#[test]
fn a_rejected_transaction_leaves_the_block_empty() {
    let mut thread = executing(&[tx(1)]);
    let action = thread.on_executed(vec![failed()], 0);
    match action {
        Action::SendBatchExecuted(result) => assert_eq!(result.stats.n_rejected, 1),
        _ => panic!("the results are next"),
    }
    assert!(thread.block_empty);
    assert_eq!(thread.l2_gas_consumed_block, 0);
}

#[test]
fn a_command_closes_the_block() {
    let mut thread = executing(&[tx(1)]);
    thread.on_executed(vec![success(1)], 0);
    thread.on_batch_sent(true);
    thread.on_clock(1);
    assert!(matches!(thread.on_close_block(), Action::Acknowledge));
    assert!(matches!(thread.on_acknowledged(), Action::ExecuteTxs));
    assert!(matches!(thread.on_executed(vec![], 0), Action::ReadClock));
    assert!(matches!(thread.on_clock(2), Action::Finalize));
    assert!(matches!(end_block(&mut thread, 2), Action::Take { deadline: Some(1_002), .. }));
    assert!(!thread.force_close);
}

#[test]
fn messages_are_handed_over_with_their_block() {
    let mut thread = executing(&[message(1, 40), message(2, 40)]);
    assert_eq!(thread.to_exec.len(), 1);
    thread.on_executed(vec![success(1)], 0);
    thread.on_batch_sent(true);
    thread.on_clock(BLOCK_TIME);
    thread.on_finalized(Ok(()));
    thread.on_end_block_sent(true, 1);
    match thread.on_state_diff(Ok(StateMaps::new())) {
        Action::FinishBlock(finished) => {
            assert_eq!(finished.consumed_l1_to_l2_nonces.len(), 1);
            assert!(finished.consumed_l1_to_l2_nonces.contains(&40));
        }
        _ => panic!("the block is handed over next"),
    }
    thread.on_block_finished(Ok(()));
    assert!(thread.state.consumed_l1_to_l2_nonces().is_empty());
    thread.on_batch(batch(&[message(3, 40)]), vec![Ok(true)]);
    assert!(thread.to_exec.is_empty());
}

#[test]
fn an_appended_batch_gets_a_block_of_its_own() {
    let mut thread = executing(&[tx(1), tx(2)]);
    thread.on_executed(vec![success(10), success(20)], 0);
    thread.on_batch_sent(true);
    thread.on_clock(1);
    assert!(matches!(thread.on_append_batch(append_params(), Ok(()), Ok(())), Action::Finalize));
    assert!(matches!(end_block(&mut thread, 50), Action::Acknowledge));
    assert_eq!(thread.next_block_deadline, 1_050);
    assert!(thread.block_empty && thread.force_close);
    assert!(matches!(thread.on_acknowledged(), Action::CreateContext { previous_l2_gas_used: 30 }));
    match thread.on_context(Ok(context(4))) {
        Action::BuildExecutor { exec_ctx } => assert_eq!(exec_ctx.gas_prices.eth_l1_gas_price, 6),
        _ => panic!("the executor is built next"),
    }
    thread.on_executor_built(Ok(()));
    match thread.on_block_hash(Ok(None)) {
        Action::SeedCache(cache) => {
            let address = ContractAddress::from_u64(50);
            assert_eq!(cache.get_nonce_at(address), Some(Nonce(felt(2))));
            assert_eq!(cache.initial_reads.nonces.get(&address), Some(&Nonce(felt(1))));
        }
        _ => panic!("the cache is next"),
    }
    thread.on_cache_seeded(Ok(()));
    assert!(matches!(thread.on_start_sent(true), Action::ReplayBatch));
    thread.replay();
    assert!(thread.can_add_replayed());
    match thread.on_replayed(9) {
        Action::SendBatchExecuted(result) => {
            assert_eq!(result.executed_txs.txs, batch(&[tx(500)]).txs);
            assert_eq!(result.stats.n_executed, 1);
            assert_eq!(result.stats.l2_gas_consumed, 70);
            assert_eq!(result.stats.exec_duration, 9);
        }
        _ => panic!("the results are next"),
    }
    assert_eq!(thread.l2_gas_consumed_block, 70);
    thread.on_batch_sent(true);
    assert!(matches!(thread.on_clock(51), Action::Finalize));
    thread.on_finalized(Ok(()));
    thread.on_end_block_sent(true, 60);
    match thread.on_state_diff(Ok(StateMaps::new())) {
        Action::FinishBlock(finished) => {
            let address = ContractAddress::from_u64(50);
            assert_eq!(finished.state_diff.nonces.get(&address), Some(&Nonce(felt(2))));
            assert_eq!(finished.state_diff.class_hashes.get(&address), Some(&ClassHash(felt(9))));
        }
        _ => panic!("the block is handed over next"),
    }
    assert!(matches!(
        thread.on_block_finished(Ok(())),
        Action::Take { deadline: Some(1_060), should_wait: true }
    ));
    assert!(!thread.force_close);
    assert!(thread.extend_state_diffs.is_empty());
}

#[test]
fn transactions_at_hand_wait_for_an_appended_batch() {
    let mut thread = executing(&[tx(1), tx(2)]);
    thread.on_executed(vec![success(1)], 0);
    thread.on_batch_sent(true);
    thread.on_clock(1);
    end_block(&mut thread, 1);
    assert!(matches!(thread.on_append_batch(append_params(), Ok(()), Ok(())), Action::Acknowledge));
    assert!(matches!(thread.on_acknowledged(), Action::CreateContext { .. }));
    assert!(matches!(start_block(&mut thread, 4), Action::ReplayBatch));
    thread.replay();
    thread.on_replayed(0);
    thread.on_batch_sent(true);
    assert!(matches!(thread.on_clock(2), Action::Finalize));
    assert!(matches!(end_block(&mut thread, 2), Action::Take { should_wait: false, .. }));
    assert_eq!(thread.to_exec.txs, batch(&[tx(2)]).txs);
}

#[test]
fn an_appended_batch_without_transactions_closes_its_block_too() {
    let (mut thread, _) = ExecutorThread::new(config(), 0);
    let params = AppendBatchParams { transactions: vec![], transaction_results: vec![], ..append_params() };
    assert!(matches!(thread.on_append_batch(params, Ok(()), Ok(())), Action::Acknowledge));
    thread.on_acknowledged();
    assert!(matches!(start_block(&mut thread, 4), Action::ReplayBatch));
    thread.replay();
    assert!(matches!(thread.on_replayed(0), Action::ReadClock));
    assert!(matches!(thread.on_clock(1), Action::Finalize));
}

#[test]
fn reads_of_a_batch_that_fail_stop_the_executor() {
    let (mut thread, _) = ExecutorThread::new(config(), 0);
    assert!(matches!(
        thread.on_append_batch(append_params(), failed(), Err("other".to_string())),
        Action::Exit(Err(ExecutorError::ReadInitialStorage(text))) if text == "failed"
    ));
    let (mut thread, _) = ExecutorThread::new(config(), 0);
    assert!(matches!(
        thread.on_append_batch(append_params(), Ok(()), failed()),
        Action::Exit(Err(ExecutorError::ReadInitialNonces(text))) if text == "failed"
    ));
    assert!(matches!(thread.phase, Phase::Stopped));
}

#[test]
fn failures_on_arrival_stop_the_executor() {
    let (mut thread, _) = ExecutorThread::new(config(), 0);
    assert!(matches!(
        thread.on_batch(batch(&[message(1, 40)]), vec![failed()]),
        Action::Exit(Err(ExecutorError::CheckNonce(text))) if text == "failed"
    ));
    let (mut thread, _) = ExecutorThread::new(config(), 0);
    assert!(matches!(
        thread.on_batch(batch(&[message(1, 1 << 64)]), unconsumed(1)),
        Action::Exit(Err(ExecutorError::NonceConversion))
    ));
}

#[test]
fn failures_at_the_start_of_a_block_stop_the_executor() {
    let start = || {
        let (mut thread, _) = ExecutorThread::new(config(), 0);
        thread.on_batch(batch(&[tx(1)]), unconsumed(1));
        thread
    };
    let mut thread = start();
    assert!(matches!(
        thread.on_context(failed()),
        Action::Exit(Err(ExecutorError::CreateContext(_)))
    ));
    let mut thread = start();
    thread.on_context(Ok(context(3)));
    assert!(matches!(
        thread.on_executor_built(failed()),
        Action::Exit(Err(ExecutorError::BuildExecutor(_)))
    ));
    let mut thread = start();
    thread.on_context(Ok(context(3)));
    thread.on_executor_built(Ok(()));
    assert!(matches!(thread.on_block_hash(failed()), Action::Exit(Err(ExecutorError::BlockHash(_)))));
    let mut thread = start();
    thread.on_context(Ok(context(3)));
    thread.on_executor_built(Ok(()));
    thread.on_block_hash(Ok(None));
    assert!(matches!(thread.on_cache_seeded(failed()), Action::Exit(Err(ExecutorError::SeedCache(_)))));
}

#[test]
fn failures_at_the_end_of_a_block_stop_the_executor() {
    let close = || {
        let mut thread = executing(&[]);
        thread.on_executed(vec![], 0);
        assert!(matches!(thread.on_clock(BLOCK_TIME), Action::Finalize));
        thread
    };
    assert!(matches!(close().on_finalized(failed()), Action::Exit(Err(ExecutorError::Finalize(_)))));
    let mut thread = close();
    thread.on_finalized(Ok(()));
    thread.on_end_block_sent(true, 1);
    assert!(matches!(thread.on_state_diff(failed()), Action::Exit(Err(ExecutorError::StateDiff(_)))));
    let mut thread = close();
    thread.on_finalized(Ok(()));
    thread.on_end_block_sent(true, 1);
    thread.on_state_diff(Ok(StateMaps::new()));
    assert!(matches!(
        thread.on_block_finished(failed()),
        Action::Exit(Err(ExecutorError::FinishBlock(_)))
    ));
}

#[test]
fn the_executor_stops_quietly_when_nobody_listens() {
    let (mut thread, _) = ExecutorThread::new(config(), 0);
    assert!(matches!(thread.on_batches_closed(), Action::Exit(Ok(()))));
    let (mut thread, _) = ExecutorThread::new(config(), 0);
    thread.on_batch(batch(&[tx(1)]), unconsumed(1));
    thread.on_context(Ok(context(3)));
    thread.on_executor_built(Ok(()));
    thread.on_block_hash(Ok(None));
    thread.on_cache_seeded(Ok(()));
    assert!(matches!(thread.on_start_sent(false), Action::Exit(Ok(()))));
    let mut thread = executing(&[tx(1)]);
    thread.on_executed(vec![success(1)], 0);
    assert!(matches!(thread.on_batch_sent(false), Action::Exit(Ok(()))));
    let mut thread = executing(&[]);
    thread.on_executed(vec![], 0);
    thread.on_clock(BLOCK_TIME);
    thread.on_finalized(Ok(()));
    assert!(matches!(thread.on_end_block_sent(false, u128::MAX), Action::Exit(Ok(()))));
}

#[test]
fn what_waits_is_executed_before_the_executor_stops() {
    let mut thread = executing(&[tx(1), tx(2)]);
    thread.on_executed(vec![success(1)], 0);
    thread.on_batch_sent(true);
    thread.on_clock(1);
    let action = end_block(&mut thread, 1);
    assert!(matches!(action, Action::Take { should_wait: false, .. }));
    thread.on_batch(BatchToExecute::default(), vec![]);
    assert!(matches!(start_block(&mut thread, 4), Action::ExecuteTxs));
    match thread.on_executed(vec![success(1)], 0) {
        Action::SendBatchExecuted(result) => assert_eq!(result.executed_txs.txs, batch(&[tx(2)]).txs),
        _ => panic!("the results are next"),
    }
    thread.on_batch_sent(true);
    assert!(matches!(thread.on_clock(1), Action::Take { should_wait: true, .. }));
    assert!(thread.to_exec.is_empty());
    assert!(matches!(thread.on_batches_closed(), Action::Exit(Ok(()))));
}

#[test]
fn what_does_not_fit_can_be_told_beforehand() {
    let mut thread = executing(&[tx(1)]);
    assert!(!thread.can_add(&vec![success(1), success(1)]));
    assert!(thread.can_add(&vec![success(u128::MAX)]));
    thread.l2_gas_consumed_block = 1;
    assert!(!thread.can_add(&vec![success(u128::MAX)]));
    let (mut thread, _) = ExecutorThread::new(config(), 0);
    let mut initial_nonces: AssocMap<Felt, Felt> = AssocMap::new();
    initial_nonces.insert(Felt::new(1 << 123, 0).unwrap(), felt(1));
    thread.on_append_batch(AppendBatchParams { initial_nonces, ..append_params() }, Ok(()), Ok(()));
    assert!(!thread.can_start_block());
    assert!(matches!(thread.state, ExecutorThreadState::NewBlock(_)));
}
