//! Batches that were executed elsewhere.
use block_production::append_batch::{
    DeclareTransactionReceipt, DeployAccountTransactionReceipt, DeployTransactionReceipt, Event,
    ExecutionResources, ExecutionResult, FeePayment, GasPrices, GasVector, InvokeTransactionReceipt, MsgToL1,
    MsgToL2, PriceUnit, TransactionReceipt,
};
use block_production::felt::Felt;

fn felt(value: u128) -> Felt {
    Felt::new(0, value).unwrap()
}

#[test]
fn defaults_are_zero() {
    assert_eq!(PriceUnit::default(), PriceUnit::Wei);
    assert_eq!(FeePayment::default(), FeePayment { amount: felt(0), unit: PriceUnit::Wei });
    assert_eq!(GasVector::default(), GasVector { l1_gas: 0, l1_data_gas: 0, l2_gas: 0 });
    assert_eq!(ExecutionResult::default(), ExecutionResult::Succeeded);
    let prices = GasPrices::default();
    assert_eq!(prices.eth_l1_gas_price, 0);
    assert_eq!(prices.strk_l2_gas_price, 0);
    let resources = ExecutionResources::default();
    assert_eq!(resources.steps, 0);
    assert_eq!(resources.segment_arena_builtin, 0);
    assert_eq!(resources.total_gas_consumed, GasVector::default());
    let invoke = InvokeTransactionReceipt::default();
    assert_eq!(invoke.transaction_hash, felt(0));
    assert!(invoke.messages_sent.is_empty() && invoke.events.is_empty());
    assert_eq!(DeclareTransactionReceipt::default().execution_result, ExecutionResult::Succeeded);
    assert_eq!(DeployTransactionReceipt::default().contract_address, felt(0));
    assert_eq!(DeployAccountTransactionReceipt::default().contract_address, felt(0));
}

#[test]
fn each_receipt_tells_its_gas_and_result() {
    let execution_resources = ExecutionResources {
        data_availability: GasVector { l1_gas: 1, l1_data_gas: 2, l2_gas: 3 },
        total_gas_consumed: GasVector { l1_gas: 4, l1_data_gas: 5, l2_gas: u128::MAX },
        ..ExecutionResources::default()
    };
    let execution_result = ExecutionResult::Reverted { reason: "no".to_string() };
    let receipts = [
        TransactionReceipt::Invoke(InvokeTransactionReceipt {
            execution_resources,
            execution_result: execution_result.clone(),
            ..InvokeTransactionReceipt::default()
        }),
        TransactionReceipt::Declare(DeclareTransactionReceipt {
            execution_resources,
            execution_result: execution_result.clone(),
            ..DeclareTransactionReceipt::default()
        }),
        TransactionReceipt::Deploy(DeployTransactionReceipt {
            execution_resources,
            execution_result: execution_result.clone(),
            ..DeployTransactionReceipt::default()
        }),
        TransactionReceipt::DeployAccount(DeployAccountTransactionReceipt {
            execution_resources,
            execution_result,
            ..DeployAccountTransactionReceipt::default()
        }),
    ];
    for receipt in receipts {
        assert_eq!(receipt.l2_gas(), u128::MAX);
        assert!(receipt.is_reverted());
    }
    let plain = TransactionReceipt::Invoke(InvokeTransactionReceipt::default());
    assert_eq!(plain.l2_gas(), 0);
    assert!(!plain.is_reverted());
}

#[test]
fn messages_and_events_compare_by_their_fields() {
    let message = MsgToL1 { from_address: felt(1), to_address: felt(2), payload: vec![felt(3)] };
    assert_eq!(message, message.clone());
    let reply = MsgToL2 {
        from_address: felt(2),
        to_address: felt(1),
        selector: felt(4),
        payload: vec![],
        nonce: Some(felt(5)),
    };
    assert_ne!(reply, MsgToL2 { nonce: None, ..reply.clone() });
    let event = Event { from_address: felt(1), keys: vec![felt(6)], data: vec![] };
    assert_ne!(event, Event { data: vec![felt(7)], ..event.clone() });
}
