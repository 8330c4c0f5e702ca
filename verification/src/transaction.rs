//! Transactions as the executor sees them, and what executing them gives.
use crate::append_batch::TransactionReceipt;
use crate::felt::Felt;
use crate::keys::{ClassHash, Nonce};
use crate::outside::u64_try_from_felt;
use crate::state::StateMaps;
use vstd::prelude::*;

verus! {

/// A contract class, by the number under which its owner finds it.
#[derive(Clone, Copy, PartialEq, Eq, Structural, Debug, Hash)]
pub struct ContractClass {
    pub handle: u64,
}

/// A class and the hash that it is declared under.
#[derive(Clone, Copy, PartialEq, Eq, Structural, Debug)]
pub struct DeclaredClass {
    pub class_hash: ClassHash,
    pub contract_class: ContractClass,
}

/// An account's transaction, by the number under which its owner finds it.
#[derive(Clone, Copy, PartialEq, Eq, Structural, Debug)]
pub struct AccountTransaction {
    pub handle: u64,
    pub tx_hash: Felt,
    /// The class that the transaction declares, if it declares one.
    pub declared_class: Option<DeclaredClass>,
}

/// How an account's transaction is to be executed.
#[derive(Clone, Copy, PartialEq, Eq, Structural, Debug)]
pub struct ExecutionFlags {
    pub only_query: bool,
    pub charge_fee: bool,
    pub validate: bool,
    pub strict_nonce_check: bool,
}

/// A transaction to execute.
#[derive(Clone, Copy, PartialEq, Eq, Structural, Debug)]
pub enum Transaction {
    /// A transaction that an account sends.
    Account { tx: AccountTransaction, execution_flags: ExecutionFlags },
    /// A message from the chain below.
    L1Handler { handle: u64, tx_hash: Felt, nonce: Nonce },
}

impl Transaction {
    /// The message's nonce, if the transaction is a message from the chain below.
    pub open spec fn message_nonce(self) -> Option<Nonce> {
        match self {
            Transaction::Account { .. } => None,
            Transaction::L1Handler { nonce, .. } => Some(nonce),
        }
    }

    /// The class that the transaction declares.
    pub open spec fn declares(self) -> Option<DeclaredClass> {
        match self {
            Transaction::Account { tx, .. } => tx.declared_class,
            Transaction::L1Handler { .. } => None,
        }
    }

    /// The message's nonce, if the transaction is a message from the chain below.
    pub fn l1_handler_tx_nonce(&self) -> (nonce: Option<Nonce>)
        ensures
            nonce == self.message_nonce(),
    {
        match self {
            Transaction::Account { tx: _, execution_flags: _ } => None,
            Transaction::L1Handler { handle: _, tx_hash: _, nonce } => Some(*nonce),
        }
    }

    /// The class that the transaction declares, if it declares one.
    pub fn declared_contract_class(&self) -> (class: Option<DeclaredClass>)
        ensures
            class == self.declares(),
    {
        match self {
            Transaction::Account { tx, execution_flags: _ } => tx.declared_class,
            Transaction::L1Handler { handle: _, tx_hash: _, nonce: _ } => None,
        }
    }

    /// An account's transaction as a batch brings it: charged, validated, and its nonce checked.
    pub fn from_batch(tx: AccountTransaction) -> (transaction: Transaction)
        ensures
            transaction == batch_transaction(tx),
    {
        Transaction::Account {
            tx,
            execution_flags: ExecutionFlags {
                only_query: false,
                charge_fee: true,
                validate: true,
                strict_nonce_check: true,
            },
        }
    }
}

/// An account's transaction as a batch brings it: charged, validated, and its nonce checked.
pub open spec fn batch_transaction(tx: AccountTransaction) -> Transaction {
    Transaction::Account {
        tx,
        execution_flags: ExecutionFlags {
            only_query: false,
            charge_fee: true,
            validate: true,
            strict_nonce_check: true,
        },
    }
}

/// The number of a message, if its nonce is one that fits.
pub fn message_number(nonce: Nonce) -> (number: Option<u64>)
    ensures
        number is Some <==> nonce.0.value() <= u64::MAX,
        number matches Some(n) ==> n == nonce.0.value(),
{
    u64_try_from_felt(nonce.0)
}

/// What comes with a transaction from the mempool, by the number under which its owner finds it.
#[derive(Clone, Copy, PartialEq, Eq, Structural, Debug)]
pub struct AdditionalTxInfo {
    pub handle: Option<u64>,
}

impl Default for AdditionalTxInfo {
    fn default() -> (info: AdditionalTxInfo)
        ensures
            info == (AdditionalTxInfo { handle: None }),
    {
        AdditionalTxInfo { handle: None }
    }
}

/// Where the details of an execution are.
pub enum ExecutionDetails {
    /// The transaction was executed here; its owner finds the details under this number.
    Executed(u64),
    /// The transaction was executed elsewhere, and this is what it came to.
    Receipt(TransactionReceipt),
}

/// What executing a transaction came to.
pub struct TransactionExecutionInfo {
    /// The L2 gas that the transaction used.
    pub l2_gas: u128,
    pub reverted: bool,
    pub details: ExecutionDetails,
}

/// What executing a transaction gives: what it came to and the state changes it made, or why it
/// could not be executed.
pub type TransactionExecutionResult = Result<(TransactionExecutionInfo, StateMaps), String>;

/// Transactions to execute, in order, each with what came with it.
pub struct BatchToExecute {
    pub txs: Vec<(Transaction, AdditionalTxInfo)>,
}

impl View for BatchToExecute {
    type V = Seq<(Transaction, AdditionalTxInfo)>;

    open spec fn view(&self) -> Seq<(Transaction, AdditionalTxInfo)> {
        self.txs@
    }
}

impl Default for BatchToExecute {
    fn default() -> (batch: BatchToExecute)
        ensures
            batch@ == Seq::<(Transaction, AdditionalTxInfo)>::empty(),
    {
        BatchToExecute { txs: Vec::new() }
    }
}

impl BatchToExecute {
    /// An empty batch with room for `capacity` transactions.
    pub fn with_capacity(capacity: usize) -> (batch: BatchToExecute)
        ensures
            batch@ == Seq::<(Transaction, AdditionalTxInfo)>::empty(),
    {
        BatchToExecute { txs: Vec::with_capacity(capacity) }
    }

    /// How many transactions there are.
    pub fn len(&self) -> (len: usize)
        ensures
            len == self@.len(),
    {
        self.txs.len()
    }

    /// Whether there are none.
    pub fn is_empty(&self) -> (empty: bool)
        ensures
            empty == (self@.len() == 0),
    {
        self.txs.len() == 0
    }

    /// Adds a transaction at the end.
    pub fn push(&mut self, tx: Transaction, additional_info: AdditionalTxInfo)
        ensures
            final(self)@ == old(self)@.push((tx, additional_info)),
    {
        self.txs.push((tx, additional_info));
    }

    /// Takes the first `n` transactions out.
    pub fn remove_n_front(&mut self, n: usize) -> (front: BatchToExecute)
        requires
            n <= old(self)@.len(),
        ensures
            front@ == old(self)@.take(n as int),
            final(self)@ == old(self)@.skip(n as int),
    {
        let mut rest = self.txs.split_off(n);
        core::mem::swap(&mut rest, &mut self.txs);
        BatchToExecute { txs: rest }
    }
}

/// Messages from the chain below have a nonce and declare nothing; accounts' transactions have no
/// such nonce and declare what they declare.
pub proof fn only_messages_have_a_message_nonce(
    tx: AccountTransaction,
    execution_flags: ExecutionFlags,
    handle: u64,
    tx_hash: Felt,
    nonce: Nonce,
)
    ensures
        (Transaction::Account { tx, execution_flags }).message_nonce() is None,
        (Transaction::Account { tx, execution_flags }).declares() == tx.declared_class,
        (Transaction::L1Handler { handle, tx_hash, nonce }).message_nonce() == Some(nonce),
        (Transaction::L1Handler { handle, tx_hash, nonce }).declares() is None,
{
}

/// A transaction of a batch is the account's own, and is to be charged, validated and held to its
/// nonce, not only queried.
pub proof fn batch_transactions_are_executed_in_full(tx: AccountTransaction)
    ensures
        batch_transaction(tx) matches Transaction::Account { tx: same, execution_flags: flags } && {
            &&& same == tx
            &&& !flags.only_query
            &&& flags.charge_fee
            &&& flags.validate
            &&& flags.strict_nonce_check
        },
{
}

} // verus!
