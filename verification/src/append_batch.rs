//! A batch of transactions that was executed elsewhere and is to be appended as a block.
use crate::assoc_map::AssocMap;
use crate::felt::Felt;
use crate::state::CommitmentStateDiff;
use crate::transaction::AccountTransaction;
use vstd::prelude::*;

verus! {

/// The gas prices of a block, in both currencies.
#[derive(Clone, Copy, PartialEq, Eq, Structural, Debug)]
pub struct GasPrices {
    pub eth_l1_gas_price: u128,
    pub strk_l1_gas_price: u128,
    pub eth_l1_data_gas_price: u128,
    pub strk_l1_data_gas_price: u128,
    pub eth_l2_gas_price: u128,
    pub strk_l2_gas_price: u128,
}

impl Default for GasPrices {
    fn default() -> (prices: GasPrices)
        ensures
            prices == (GasPrices {
                eth_l1_gas_price: 0,
                strk_l1_gas_price: 0,
                eth_l1_data_gas_price: 0,
                strk_l1_data_gas_price: 0,
                eth_l2_gas_price: 0,
                strk_l2_gas_price: 0,
            }),
    {
        GasPrices {
            eth_l1_gas_price: 0,
            strk_l1_gas_price: 0,
            eth_l1_data_gas_price: 0,
            strk_l1_data_gas_price: 0,
            eth_l2_gas_price: 0,
            strk_l2_gas_price: 0,
        }
    }
}

/// A batch to append: its transactions, what each came to, the values that the batch read at
/// first and those that it left behind, and the gas prices that it was executed with.
pub struct AppendBatchParams {
    pub transactions: Vec<AccountTransaction>,
    pub transaction_results: Vec<(TransactionReceipt, CommitmentStateDiff)>,
    pub initial_storage: AssocMap<Felt, AssocMap<Felt, Felt>>,
    pub current_storage: AssocMap<Felt, AssocMap<Felt, Felt>>,
    pub initial_nonces: AssocMap<Felt, Felt>,
    pub current_nonces: AssocMap<Felt, Felt>,
    pub gas_prices: GasPrices,
}

/// What a transaction came to.
#[derive(Clone, Debug, PartialEq, Eq)]
pub enum TransactionReceipt {
    Invoke(InvokeTransactionReceipt),
    Declare(DeclareTransactionReceipt),
    Deploy(DeployTransactionReceipt),
    DeployAccount(DeployAccountTransactionReceipt),
}

impl TransactionReceipt {
    /// The resources that the transaction used.
    pub open spec fn resources(self) -> ExecutionResources {
        match self {
            TransactionReceipt::Invoke(receipt) => receipt.execution_resources,
            TransactionReceipt::Declare(receipt) => receipt.execution_resources,
            TransactionReceipt::Deploy(receipt) => receipt.execution_resources,
            TransactionReceipt::DeployAccount(receipt) => receipt.execution_resources,
        }
    }

    /// Whether the transaction succeeded or was reverted.
    pub open spec fn result(self) -> ExecutionResult {
        match self {
            TransactionReceipt::Invoke(receipt) => receipt.execution_result,
            TransactionReceipt::Declare(receipt) => receipt.execution_result,
            TransactionReceipt::Deploy(receipt) => receipt.execution_result,
            TransactionReceipt::DeployAccount(receipt) => receipt.execution_result,
        }
    }

    /// The L2 gas that the transaction used in all.
    pub fn l2_gas(&self) -> (l2_gas: u128)
        ensures
            l2_gas == self.resources().total_gas_consumed.l2_gas,
    {
        match self {
            TransactionReceipt::Invoke(receipt) => receipt.execution_resources.total_gas_consumed.l2_gas,
            TransactionReceipt::Declare(receipt) => receipt.execution_resources.total_gas_consumed.l2_gas,
            TransactionReceipt::Deploy(receipt) => receipt.execution_resources.total_gas_consumed.l2_gas,
            TransactionReceipt::DeployAccount(receipt) => {
                receipt.execution_resources.total_gas_consumed.l2_gas
            },
        }
    }

    /// Whether the transaction was reverted.
    pub fn is_reverted(&self) -> (reverted: bool)
        ensures
            reverted == (self.result() is Reverted),
    {
        let result = match self {
            TransactionReceipt::Invoke(receipt) => &receipt.execution_result,
            TransactionReceipt::Declare(receipt) => &receipt.execution_result,
            TransactionReceipt::Deploy(receipt) => &receipt.execution_result,
            TransactionReceipt::DeployAccount(receipt) => &receipt.execution_result,
        };
        match result {
            ExecutionResult::Succeeded => false,
            ExecutionResult::Reverted { reason: _ } => true,
        }
    }
}

/// What an invocation came to.
#[derive(Clone, Debug, PartialEq, Eq)]
pub struct InvokeTransactionReceipt {
    pub transaction_hash: Felt,
    pub actual_fee: FeePayment,
    pub messages_sent: Vec<MsgToL1>,
    pub events: Vec<Event>,
    pub execution_resources: ExecutionResources,
    pub execution_result: ExecutionResult,
}

/// What the declaration of a class came to.
#[derive(Clone, Debug, PartialEq, Eq)]
pub struct DeclareTransactionReceipt {
    pub transaction_hash: Felt,
    pub actual_fee: FeePayment,
    pub messages_sent: Vec<MsgToL1>,
    pub events: Vec<Event>,
    pub execution_resources: ExecutionResources,
    pub execution_result: ExecutionResult,
}

/// What the deployment of a contract came to.
#[derive(Clone, Debug, PartialEq, Eq)]
pub struct DeployTransactionReceipt {
    pub transaction_hash: Felt,
    pub actual_fee: FeePayment,
    pub messages_sent: Vec<MsgToL1>,
    pub events: Vec<Event>,
    pub execution_resources: ExecutionResources,
    pub execution_result: ExecutionResult,
    pub contract_address: Felt,
}

/// What the deployment of an account came to.
#[derive(Clone, Debug, PartialEq, Eq)]
pub struct DeployAccountTransactionReceipt {
    pub transaction_hash: Felt,
    pub actual_fee: FeePayment,
    pub messages_sent: Vec<MsgToL1>,
    pub events: Vec<Event>,
    pub execution_resources: ExecutionResources,
    pub execution_result: ExecutionResult,
    pub contract_address: Felt,
}

/// A fee that was paid.
#[derive(Clone, Copy, PartialEq, Eq, Structural, Debug)]
pub struct FeePayment {
    pub amount: Felt,
    pub unit: PriceUnit,
}

/// The unit of a fee.
#[derive(Clone, Copy, PartialEq, Eq, Structural, Debug)]
pub enum PriceUnit {
    Wei,
    Fri,
}

/// A message to the chain below.
#[derive(Clone, Debug, PartialEq, Eq)]
pub struct MsgToL1 {
    pub from_address: Felt,
    pub to_address: Felt,
    pub payload: Vec<Felt>,
}

/// A message from the chain below.
#[derive(Clone, Debug, PartialEq, Eq)]
pub struct MsgToL2 {
    pub from_address: Felt,
    pub to_address: Felt,
    pub selector: Felt,
    pub payload: Vec<Felt>,
    pub nonce: Option<Felt>,
}

/// Amounts of gas.
#[derive(Clone, Copy, PartialEq, Eq, Structural, Debug)]
pub struct GasVector {
    pub l1_gas: u128,
    pub l1_data_gas: u128,
    pub l2_gas: u128,
}

/// The resources that an execution used.
#[derive(Clone, Copy, PartialEq, Eq, Structural, Debug)]
pub struct ExecutionResources {
    pub steps: u64,
    pub memory_holes: u64,
    pub range_check_builtin_applications: u64,
    pub pedersen_builtin_applications: u64,
    pub poseidon_builtin_applications: u64,
    pub ec_op_builtin_applications: u64,
    pub ecdsa_builtin_applications: u64,
    pub bitwise_builtin_applications: u64,
    pub keccak_builtin_applications: u64,
    pub segment_arena_builtin: u64,
    pub data_availability: GasVector,
    pub total_gas_consumed: GasVector,
}

/// Whether an execution succeeded.
#[derive(Clone, Debug, PartialEq, Eq)]
pub enum ExecutionResult {
    Succeeded,
    Reverted { reason: String },
}

/// An event that a contract emitted.
#[derive(Clone, Debug, PartialEq, Eq)]
pub struct Event {
    pub from_address: Felt,
    pub keys: Vec<Felt>,
    pub data: Vec<Felt>,
}

impl Default for PriceUnit {
    fn default() -> (unit: PriceUnit)
        ensures
            unit == PriceUnit::Wei,
    {
        PriceUnit::Wei
    }
}

impl Default for FeePayment {
    fn default() -> (fee: FeePayment)
        ensures
            fee.amount.value() == 0,
            fee.unit == PriceUnit::Wei,
    {
        FeePayment { amount: Felt::zero(), unit: PriceUnit::default() }
    }
}

impl Default for GasVector {
    fn default() -> (gas: GasVector)
        ensures
            gas == (GasVector { l1_gas: 0, l1_data_gas: 0, l2_gas: 0 }),
    {
        GasVector { l1_gas: 0, l1_data_gas: 0, l2_gas: 0 }
    }
}

/// Nothing was used.
pub open spec fn no_resources() -> ExecutionResources {
    ExecutionResources {
        steps: 0,
        memory_holes: 0,
        range_check_builtin_applications: 0,
        pedersen_builtin_applications: 0,
        poseidon_builtin_applications: 0,
        ec_op_builtin_applications: 0,
        ecdsa_builtin_applications: 0,
        bitwise_builtin_applications: 0,
        keccak_builtin_applications: 0,
        segment_arena_builtin: 0,
        data_availability: GasVector { l1_gas: 0, l1_data_gas: 0, l2_gas: 0 },
        total_gas_consumed: GasVector { l1_gas: 0, l1_data_gas: 0, l2_gas: 0 },
    }
}

impl Default for ExecutionResources {
    fn default() -> (resources: ExecutionResources)
        ensures
            resources == no_resources(),
    {
        ExecutionResources {
            steps: 0,
            memory_holes: 0,
            range_check_builtin_applications: 0,
            pedersen_builtin_applications: 0,
            poseidon_builtin_applications: 0,
            ec_op_builtin_applications: 0,
            ecdsa_builtin_applications: 0,
            bitwise_builtin_applications: 0,
            keccak_builtin_applications: 0,
            segment_arena_builtin: 0,
            data_availability: GasVector::default(),
            total_gas_consumed: GasVector::default(),
        }
    }
}

impl Default for ExecutionResult {
    fn default() -> (result: ExecutionResult)
        ensures
            result == ExecutionResult::Succeeded,
    {
        ExecutionResult::Succeeded
    }
}

impl Default for InvokeTransactionReceipt {
    fn default() -> (receipt: InvokeTransactionReceipt)
        ensures
            receipt.transaction_hash.value() == 0,
            receipt.actual_fee.amount.value() == 0,
            receipt.actual_fee.unit == PriceUnit::Wei,
            receipt.messages_sent@ == Seq::<MsgToL1>::empty(),
            receipt.events@ == Seq::<Event>::empty(),
            receipt.execution_resources == no_resources(),
            receipt.execution_result == ExecutionResult::Succeeded,
    {
        InvokeTransactionReceipt {
            transaction_hash: Felt::zero(),
            actual_fee: FeePayment::default(),
            messages_sent: Vec::new(),
            events: Vec::new(),
            execution_resources: ExecutionResources::default(),
            execution_result: ExecutionResult::default(),
        }
    }
}

impl Default for DeclareTransactionReceipt {
    fn default() -> (receipt: DeclareTransactionReceipt)
        ensures
            receipt.transaction_hash.value() == 0,
            receipt.actual_fee.amount.value() == 0,
            receipt.actual_fee.unit == PriceUnit::Wei,
            receipt.messages_sent@ == Seq::<MsgToL1>::empty(),
            receipt.events@ == Seq::<Event>::empty(),
            receipt.execution_resources == no_resources(),
            receipt.execution_result == ExecutionResult::Succeeded,
    {
        DeclareTransactionReceipt {
            transaction_hash: Felt::zero(),
            actual_fee: FeePayment::default(),
            messages_sent: Vec::new(),
            events: Vec::new(),
            execution_resources: ExecutionResources::default(),
            execution_result: ExecutionResult::default(),
        }
    }
}

impl Default for DeployTransactionReceipt {
    fn default() -> (receipt: DeployTransactionReceipt)
        ensures
            receipt.transaction_hash.value() == 0,
            receipt.actual_fee.amount.value() == 0,
            receipt.actual_fee.unit == PriceUnit::Wei,
            receipt.messages_sent@ == Seq::<MsgToL1>::empty(),
            receipt.events@ == Seq::<Event>::empty(),
            receipt.execution_resources == no_resources(),
            receipt.execution_result == ExecutionResult::Succeeded,
            receipt.contract_address.value() == 0,
    {
        DeployTransactionReceipt {
            transaction_hash: Felt::zero(),
            actual_fee: FeePayment::default(),
            messages_sent: Vec::new(),
            events: Vec::new(),
            execution_resources: ExecutionResources::default(),
            execution_result: ExecutionResult::default(),
            contract_address: Felt::zero(),
        }
    }
}

impl Default for DeployAccountTransactionReceipt {
    fn default() -> (receipt: DeployAccountTransactionReceipt)
        ensures
            receipt.transaction_hash.value() == 0,
            receipt.actual_fee.amount.value() == 0,
            receipt.actual_fee.unit == PriceUnit::Wei,
            receipt.messages_sent@ == Seq::<MsgToL1>::empty(),
            receipt.events@ == Seq::<Event>::empty(),
            receipt.execution_resources == no_resources(),
            receipt.execution_result == ExecutionResult::Succeeded,
            receipt.contract_address.value() == 0,
    {
        DeployAccountTransactionReceipt {
            transaction_hash: Felt::zero(),
            actual_fee: FeePayment::default(),
            messages_sent: Vec::new(),
            events: Vec::new(),
            execution_resources: ExecutionResources::default(),
            execution_result: ExecutionResult::default(),
            contract_address: Felt::zero(),
        }
    }
}

/// Each receipt tells its own resources and result.
pub proof fn each_receipt_speaks_for_itself(
    invoke: InvokeTransactionReceipt,
    declare: DeclareTransactionReceipt,
    deploy: DeployTransactionReceipt,
    deploy_account: DeployAccountTransactionReceipt,
)
    ensures
        TransactionReceipt::Invoke(invoke).resources() == invoke.execution_resources,
        TransactionReceipt::Invoke(invoke).result() == invoke.execution_result,
        TransactionReceipt::Declare(declare).resources() == declare.execution_resources,
        TransactionReceipt::Declare(declare).result() == declare.execution_result,
        TransactionReceipt::Deploy(deploy).resources() == deploy.execution_resources,
        TransactionReceipt::Deploy(deploy).result() == deploy.execution_result,
        TransactionReceipt::DeployAccount(deploy_account).resources()
            == deploy_account.execution_resources,
        TransactionReceipt::DeployAccount(deploy_account).result() == deploy_account.execution_result,
{
}

/// No resources are zero of each.
pub proof fn no_resources_are_none_of_each()
    ensures
        ({
            let none = no_resources();
            &&& none.steps == 0 && none.memory_holes == 0
            &&& none.range_check_builtin_applications == 0 && none.pedersen_builtin_applications == 0
            &&& none.poseidon_builtin_applications == 0 && none.ec_op_builtin_applications == 0
            &&& none.ecdsa_builtin_applications == 0 && none.bitwise_builtin_applications == 0
            &&& none.keccak_builtin_applications == 0 && none.segment_arena_builtin == 0
            &&& none.data_availability.l1_gas == 0 && none.data_availability.l1_data_gas == 0
            &&& none.data_availability.l2_gas == 0 && none.total_gas_consumed.l1_gas == 0
            &&& none.total_gas_consumed.l1_data_gas == 0 && none.total_gas_consumed.l2_gas == 0
        }),
{
}

} // verus!
