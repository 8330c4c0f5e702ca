//! What executing transactions gives.
use block_production::append_batch::{
    DeclareTransactionReceipt, ExecutionResources, ExecutionResult, GasVector, InvokeTransactionReceipt,
    TransactionReceipt,
};
use block_production::assoc_map::AssocMap;
use block_production::execution::{collect_changes, replay_batch, replay_result, take_executed, tally, total_gas};
use block_production::executor::{AppendBatchState, ExecutionStats};
use block_production::felt::Felt;
use block_production::keys::{ClassHash, ContractAddress, Nonce};
use block_production::state::{CommitmentStateDiff, StateMaps};
use block_production::transaction::{
    AccountTransaction, AdditionalTxInfo, BatchToExecute, ContractClass, DeclaredClass, ExecutionDetails,
    ExecutionFlags, Transaction, TransactionExecutionInfo, TransactionExecutionResult,
};

fn felt(value: u128) -> Felt {
    Felt::new(0, value).unwrap()
}

fn tx(handle: u64, declares: Option<(u128, u64)>) -> AccountTransaction {
    AccountTransaction {
        handle,
        tx_hash: felt(u128::from(handle)),
        declared_class: declares.map(|(class_hash, class)| DeclaredClass {
            class_hash: ClassHash(felt(class_hash)),
            contract_class: ContractClass { handle: class },
        }),
    }
}

fn batch(txs: &[AccountTransaction]) -> BatchToExecute {
    let mut batch = BatchToExecute::default();
    for tx in txs {
        batch.push(Transaction::from_batch(*tx), AdditionalTxInfo::default());
    }
    batch
}

fn success(l2_gas: u128, reverted: bool) -> TransactionExecutionResult {
    let info = TransactionExecutionInfo { l2_gas, reverted, details: ExecutionDetails::Executed(0) };
    Ok((info, StateMaps::new()))
}

fn rejection() -> TransactionExecutionResult {
    Err("cannot be executed".to_string())
}

fn no_changes() -> CommitmentStateDiff {
    CommitmentStateDiff {
        address_to_class_hash: AssocMap::new(),
        address_to_nonce: AssocMap::new(),
        storage_updates: AssocMap::new(),
        class_hash_to_compiled_class_hash: AssocMap::new(),
    }
}

fn invoked(l2_gas: u128, execution_result: ExecutionResult) -> TransactionReceipt {
    TransactionReceipt::Invoke(InvokeTransactionReceipt {
        execution_resources: ExecutionResources {
            total_gas_consumed: GasVector { l1_gas: 0, l1_data_gas: 0, l2_gas },
            ..ExecutionResources::default()
        },
        execution_result,
        ..InvokeTransactionReceipt::default()
    })
}

#[test]
fn counts_cover_every_fate() {
    let executed = batch(&[tx(1, None), tx(2, Some((7, 70))), tx(3, Some((8, 80))), tx(4, None), tx(5, Some((7, 71)))]);
    let results =
        vec![success(10, false), success(20, true), success(30, false), rejection(), success(40, false)];
    let mut declared: AssocMap<ClassHash, ContractClass> = AssocMap::new();
    let stats = tally(&executed, &results, 99, &mut declared);
    assert_eq!(
        stats,
        ExecutionStats {
            n_batches: 1,
            n_executed: 5,
            n_added_to_block: 4,
            n_reverted: 1,
            n_rejected: 1,
            declared_classes: 2,
            l2_gas_consumed: 100,
            exec_duration: 99,
        }
    );
    assert_eq!(declared.len(), 2);
    assert_eq!(declared.get(&ClassHash(felt(7))), Some(&ContractClass { handle: 71 }));
    assert_eq!(declared.get(&ClassHash(felt(8))), Some(&ContractClass { handle: 80 }));
}

#[test]
fn a_class_declared_twice_is_counted_twice_and_kept_once() {
    let executed = batch(&[tx(1, Some((7, 70))), tx(2, Some((7, 71)))]);
    let results = vec![success(1, false), success(1, false)];
    let mut declared: AssocMap<ClassHash, ContractClass> = AssocMap::new();
    let stats = tally(&executed, &results, 0, &mut declared);
    assert_eq!(stats.declared_classes, 2);
    assert_eq!(declared.len(), 1);
    assert_eq!(declared.get(&ClassHash(felt(7))), Some(&ContractClass { handle: 71 }));
}

#[test]
fn counts_stop_at_the_shorter_list() {
    let executed = batch(&[tx(1, None), tx(2, None), tx(3, None)]);
    let results = vec![success(10, false)];
    let stats = tally(&executed, &results, 0, &mut AssocMap::new());
    assert_eq!((stats.n_executed, stats.n_added_to_block, stats.l2_gas_consumed), (3, 1, 10));
    let stats = tally(&batch(&[]), &results, 0, &mut AssocMap::new());
    assert_eq!((stats.n_executed, stats.n_added_to_block, stats.n_rejected), (0, 0, 0));
    assert_eq!(stats.n_batches, 1);
}

#[test]
fn gas_is_added_up_as_far_as_it_fits() {
    let executed = batch(&[tx(1, None), tx(2, None), tx(3, None)]);
    assert_eq!(total_gas(&executed, &vec![success(10, false), rejection(), success(20, true)]), Some(30));
    assert_eq!(total_gas(&executed, &vec![success(u128::MAX, false), success(0, false)]), Some(u128::MAX));
    assert_eq!(total_gas(&executed, &vec![success(u128::MAX, false), success(1, false)]), None);
}

#[test]
fn fewer_results_mean_a_full_block() {
    let mut to_exec = batch(&[tx(1, None), tx(2, None)]);
    let outcome = take_executed(&mut to_exec, vec![success(1, false)]);
    assert!(outcome.block_full);
    assert_eq!(outcome.executed_txs.txs, batch(&[tx(1, None)]).txs);
    assert_eq!(to_exec.txs, batch(&[tx(2, None)]).txs);
    let outcome = take_executed(&mut to_exec, vec![rejection()]);
    assert!(!outcome.block_full);
    assert!(to_exec.is_empty());
    let outcome = take_executed(&mut to_exec, vec![]);
    assert!(!outcome.block_full);
    assert!(outcome.executed_txs.is_empty());
}

#[test]
fn a_result_from_elsewhere_counts_as_executed_here() {
    let mut changes = no_changes();
    changes.address_to_nonce.insert(ContractAddress::from_u64(3), Nonce(felt(4)));
    let receipt = invoked(123, ExecutionResult::Reverted { reason: "no".to_string() });
    let (info, maps) = replay_result((receipt.clone(), changes)).unwrap();
    assert_eq!(info.l2_gas, 123);
    assert!(info.reverted);
    assert!(matches!(info.details, ExecutionDetails::Receipt(r) if r == receipt));
    assert_eq!(maps.nonces.get(&ContractAddress::from_u64(3)), Some(&Nonce(felt(4))));
}

#[test]
fn a_batch_is_replayed_in_order_and_fills_the_block() {
    let mut results = vec![];
    let mut transactions = vec![];
    for i in 0..50u64 {
        let mut changes = no_changes();
        changes.address_to_nonce.insert(ContractAddress::from_u64(i), Nonce(felt(u128::from(i))));
        results.push((invoked(u128::from(i), ExecutionResult::Succeeded), changes));
        transactions.push(tx(i, None));
    }
    results.push((TransactionReceipt::Declare(DeclareTransactionReceipt::default()), no_changes()));
    let outcome = replay_batch(AppendBatchState { transactions, transaction_results: results });
    assert!(outcome.block_full);
    assert_eq!(outcome.executed_txs.len(), 50);
    assert_eq!(outcome.blockifier_results.len(), 51);
    assert_eq!(
        outcome.executed_txs.txs[7],
        (
            Transaction::Account {
                tx: tx(7, None),
                execution_flags: ExecutionFlags {
                    only_query: false,
                    charge_fee: true,
                    validate: true,
                    strict_nonce_check: true,
                },
            },
            AdditionalTxInfo { handle: None }
        )
    );
    let changes = collect_changes(&outcome.blockifier_results);
    for (i, result) in outcome.blockifier_results.iter().take(50).enumerate() {
        let (info, maps) = result.as_ref().unwrap();
        assert_eq!(info.l2_gas, i as u128);
        let address = ContractAddress::from_u64(i as u64);
        assert_eq!(maps.nonces.get(&address), Some(&Nonce(felt(i as u128))));
        assert_eq!(changes[i].nonces.get(&address), Some(&Nonce(felt(i as u128))));
    }
    assert_eq!(changes.len(), 51);
    assert_eq!(collect_changes(&vec![rejection()])[0].nonces.len(), 0);
}
