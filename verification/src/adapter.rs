//! Answers to the state queries that execution makes, from the block's cache or from the database.
//!
//! A query that the cache cannot answer is asked of the database's view of the state. The caller
//! asks it and hands the outcome back.
use crate::assoc_map::AssocMap;
use crate::cache::{StateCache, StateCacheView};
use crate::felt::Felt;
use crate::keys::{ClassHash, CompiledClassHash, ContractAddress, Nonce, StorageEntry, StorageKey};
use crate::numeral::{a_numeral_reads_back, decimal, numeral, read};
use crate::outside::{class_hash_display, felt_lower_hex};
use vstd::prelude::*;
use vstd::string::StringExecFns;

verus! {

/// Why a state query has no answer.
pub enum StateError {
    /// The state could not be read; says what was asked and what went wrong.
    StateReadError(String),
    /// No class with this hash has been declared.
    UndeclaredClassHash(ClassHash),
}

/// How far a query has come.
pub enum Lookup<T> {
    /// The cache does not know: the state view has to be asked.
    AskView,
    /// The query's outcome.
    Done(Result<T, StateError>),
}

/// How far the query for a message's transaction has come.
pub enum NonceLookup {
    /// The state view has to be asked for the transaction with this hash.
    FindTransaction(Felt),
    /// The query's outcome.
    Done(Result<bool, StateError>),
}

/// A compiled class that can be run, by the number under which its owner finds it.
#[derive(Clone, Copy, PartialEq, Eq, Structural, Debug, Hash)]
pub struct RunnableCompiledClass {
    pub handle: u64,
}

/// A field element as messages show it.
pub open spec fn hex(felt: Felt) -> Seq<char> {
    seq!['0', 'x'] + numeral(felt.value(), 16)
}

/// The message for a storage cell that could not be read.
pub open spec fn storage_failure(
    on: Seq<char>,
    contract_address: Felt,
    key: Felt,
    err: Seq<char>,
) -> Seq<char> {
    "Failed to retrieve storage value: on="@ + on + ", contract_address="@ + hex(contract_address)
        + " key="@ + hex(key) + ": "@ + err
}

/// The message for a contract's nonce or class that could not be read.
pub open spec fn contract_failure(
    what: Seq<char>,
    on: Seq<char>,
    contract_address: Felt,
    err: Seq<char>,
) -> Seq<char> {
    "Failed to retrieve "@ + what + ": on="@ + on + ", contract_address="@ + hex(contract_address)
        + ": "@ + err
}

/// The message for a class that could not be read.
pub open spec fn class_failure(
    what: Seq<char>,
    on: Seq<char>,
    class_hash: Felt,
    err: Seq<char>,
) -> Seq<char> {
    "Failed to retrieve "@ + what + ": on="@ + on + ", class_hash="@ + hex(class_hash) + ": "@ + err
}

/// The message for a class that has no compiled form.
pub open spec fn no_compiled_class_hash(on: Seq<char>, class_hash: Felt) -> Seq<char> {
    "Class does not have a compiled class hash: on="@ + on + ", class_hash="@ + hex(class_hash)
}

/// The message for a class that cannot be brought into runnable form.
pub open spec fn class_conversion_failure(class_hash: Felt) -> Seq<char> {
    "Failed to convert class "@ + numeral(class_hash.value(), 10)
}

/// The message for a message's transaction that could not be looked up.
pub open spec fn l1_handler_failure(
    what: Seq<char>,
    on: Seq<char>,
    nonce: u64,
    err: Seq<char>,
) -> Seq<char> {
    "Failed to l1 handler "@ + what + ": on="@ + on + ", nonce="@ + numeral(nonce as nat, 10) + ": "@
        + err
}

/// Whether the outcome is a failure to read, with this message.
pub open spec fn is_read_failure<T>(outcome: Result<T, StateError>, message: Seq<char>) -> bool {
    outcome matches Err(StateError::StateReadError(text)) && text@ == message
}

/// What an adapter holds.
#[verifier::ext_equal]
pub struct BlockifierStateAdapterView {
    pub view: Seq<char>,
    pub block_number: u64,
    pub storage_reads: Map<ContractAddress, StorageKey>,
    pub nonce_reads: Map<ContractAddress, Nonce>,
    pub cache: StateCacheView,
}

/// Adapter for the database queries that execution makes.
///
/// It changes no state: what a block writes reaches the database from the block's state diff.
pub struct BlockifierStateAdapter {
    /// The name of the database's view of the state.
    pub view: String,
    pub block_number: u64,
    /// The cell that was read last in each contract.
    pub storage_reads: AssocMap<ContractAddress, StorageKey>,
    /// The nonce that was read last of each contract.
    pub nonce_reads: AssocMap<ContractAddress, Nonce>,
    pub cache: StateCache,
}

impl View for BlockifierStateAdapter {
    type V = BlockifierStateAdapterView;

    open spec fn view(&self) -> BlockifierStateAdapterView {
        BlockifierStateAdapterView {
            view: self.view@,
            block_number: self.block_number,
            storage_reads: self.storage_reads@,
            nonce_reads: self.nonce_reads@,
            cache: self.cache@,
        }
    }
}

impl BlockifierStateAdapter {
    /// An adapter on the given view, for the given block.
    pub fn new(
        view: String,
        block_number: u64,
        storage_reads: AssocMap<ContractAddress, StorageKey>,
        nonce_reads: AssocMap<ContractAddress, Nonce>,
        cache: StateCache,
    ) -> (adapter: BlockifierStateAdapter)
        ensures
            adapter@ == (BlockifierStateAdapterView {
                view: view@,
                block_number,
                storage_reads: storage_reads@,
                nonce_reads: nonce_reads@,
                cache: cache@,
            }),
    {
        BlockifierStateAdapter { view, block_number, storage_reads, nonce_reads, cache }
    }

    /// Whether the message with this nonce has been consumed: whether the transaction that the
    /// database has on record for it is among those that the view sees.
    ///
    /// `tx_hash` is the record for the nonce; `found`, once it has been asked, whether the view
    /// has the transaction.
    pub fn is_l1_to_l2_message_nonce_consumed(
        &self,
        nonce: u64,
        tx_hash: Result<Option<Felt>, String>,
        found: Option<Result<bool, String>>,
    ) -> (lookup: NonceLookup)
        ensures
            match (tx_hash, found) {
                (Err(err), _) => lookup matches NonceLookup::Done(outcome) && is_read_failure(
                    outcome,
                    l1_handler_failure("txn hash by core contract nonce"@, self@.view, nonce, err@),
                ),
                (Ok(None), _) => lookup == NonceLookup::Done(Ok(false)),
                (Ok(Some(hash)), None) => lookup == NonceLookup::FindTransaction(hash),
                (Ok(Some(_)), Some(Err(err))) => lookup matches NonceLookup::Done(outcome)
                    && is_read_failure(
                    outcome,
                    l1_handler_failure("txn by hash"@, self@.view, nonce, err@),
                ),
                (Ok(Some(_)), Some(Ok(exists))) => lookup == NonceLookup::Done(Ok(exists)),
            },
    {
        match tx_hash {
            Err(err) => NonceLookup::Done(
                Err(self.l1_handler_error("txn hash by core contract nonce", nonce, &err)),
            ),
            Ok(None) => NonceLookup::Done(Ok(false)),
            Ok(Some(hash)) => match found {
                None => NonceLookup::FindTransaction(hash),
                Some(Err(err)) => NonceLookup::Done(
                    Err(self.l1_handler_error("txn by hash", nonce, &err)),
                ),
                Some(Ok(exists)) => NonceLookup::Done(Ok(exists)),
            },
        }
    }

    /// The value of a storage cell: as the cache has it, or else as the view has it, where a cell
    /// that was never written holds zero. A cell that was read is recorded.
    ///
    /// `stored` is what the view answered, once it has been asked.
    pub fn get_storage_at(
        &mut self,
        contract_address: ContractAddress,
        key: StorageKey,
        stored: Option<Result<Option<Felt>, String>>,
    ) -> (lookup: Lookup<Felt>)
        ensures
            final(self)@ == (if lookup matches Lookup::Done(Ok(_)) {
                BlockifierStateAdapterView {
                    storage_reads: old(self)@.storage_reads.insert(contract_address, key),
                    ..old(self)@
                }
            } else {
                old(self)@
            }),
            match (old(self)@.cache.storage_at(StorageEntry { contract_address, key }), stored) {
                (Some(value), _) => lookup == Lookup::<Felt>::Done(Ok(value)),
                (None, None) => lookup == Lookup::<Felt>::AskView,
                (None, Some(Ok(Some(value)))) => lookup == Lookup::<Felt>::Done(Ok(value)),
                (None, Some(Ok(None))) => lookup matches Lookup::Done(Ok(value)) && value.value() == 0,
                (None, Some(Err(err))) => lookup matches Lookup::Done(outcome) && is_read_failure(
                    outcome,
                    storage_failure(old(self)@.view, contract_address.felt(), key.felt(), err@),
                ),
            },
    {
        if let Some(value) = self.cache.get_storage_at(contract_address, key) {
            self.storage_reads.insert(contract_address, key);
            return Lookup::Done(Ok(value));
        }
        match stored {
            None => Lookup::AskView,
            Some(Err(err)) => {
                let mut text = String::from_str("Failed to retrieve storage value: on=");
                text.append(self.view.as_str());
                text.append(", contract_address=");
                text.append(felt_lower_hex(contract_address.to_felt()).as_str());
                text.append(" key=");
                text.append(felt_lower_hex(key.to_felt()).as_str());
                text.append(": ");
                text.append(err.as_str());
                Lookup::Done(Err(StateError::StateReadError(text)))
            },
            Some(Ok(found)) => {
                let value = match found {
                    Some(value) => value,
                    None => Felt::zero(),
                };
                self.storage_reads.insert(contract_address, key);
                Lookup::Done(Ok(value))
            },
        }
    }

    /// The nonce of a contract: as the cache has it, or else as the view has it, where a contract
    /// without one has nonce zero. A nonce that was read is recorded.
    ///
    /// `stored` is what the view answered, once it has been asked.
    pub fn get_nonce_at(
        &mut self,
        contract_address: ContractAddress,
        stored: Option<Result<Option<Felt>, String>>,
    ) -> (lookup: Lookup<Nonce>)
        ensures
            final(self)@ == (if let Lookup::Done(Ok(nonce)) = lookup {
                BlockifierStateAdapterView {
                    nonce_reads: old(self)@.nonce_reads.insert(contract_address, nonce),
                    ..old(self)@
                }
            } else {
                old(self)@
            }),
            match (old(self)@.cache.nonce_at(contract_address), stored) {
                (Some(nonce), _) => lookup == Lookup::Done(Ok(nonce)),
                (None, None) => lookup == Lookup::<Nonce>::AskView,
                (None, Some(Ok(Some(value)))) => lookup == Lookup::Done(Ok(Nonce(value))),
                (None, Some(Ok(None))) => lookup matches Lookup::Done(Ok(nonce)) && nonce.0.value() == 0,
                (None, Some(Err(err))) => lookup matches Lookup::Done(outcome) && is_read_failure(
                    outcome,
                    contract_failure("nonce"@, old(self)@.view, contract_address.felt(), err@),
                ),
            },
    {
        if let Some(nonce) = self.cache.get_nonce_at(contract_address) {
            self.nonce_reads.insert(contract_address, nonce);
            return Lookup::Done(Ok(nonce));
        }
        match stored {
            None => Lookup::AskView,
            Some(Err(err)) => Lookup::Done(Err(self.contract_error("nonce", contract_address, &err))),
            Some(Ok(found)) => {
                let nonce = match found {
                    Some(value) => Nonce(value),
                    None => Nonce(Felt::zero()),
                };
                self.nonce_reads.insert(contract_address, nonce);
                Lookup::Done(Ok(nonce))
            },
        }
    }

    /// The class of a contract: as the cache has it, or else as the view has it. A contract that
    /// is not deployed has class hash zero.
    ///
    /// `stored` is what the view answered, once it has been asked.
    pub fn get_class_hash_at(
        &self,
        contract_address: ContractAddress,
        stored: Option<Result<Option<Felt>, String>>,
    ) -> (lookup: Lookup<ClassHash>)
        ensures
            match (self@.cache.class_hash_at(contract_address), stored) {
                (Some(class_hash), _) => lookup == Lookup::Done(Ok(class_hash)),
                (None, None) => lookup == Lookup::<ClassHash>::AskView,
                (None, Some(Ok(Some(value)))) => lookup == Lookup::Done(Ok(ClassHash(value))),
                (None, Some(Ok(None))) => lookup matches Lookup::Done(Ok(class_hash))
                    && class_hash.0.value() == 0,
                (None, Some(Err(err))) => lookup matches Lookup::Done(outcome) && is_read_failure(
                    outcome,
                    contract_failure("class_hash"@, self@.view, contract_address.felt(), err@),
                ),
            },
    {
        if let Some(class_hash) = self.cache.get_class_hash_at(contract_address) {
            return Lookup::Done(Ok(class_hash));
        }
        match stored {
            None => Lookup::AskView,
            Some(Err(err)) => Lookup::Done(
                Err(self.contract_error("class_hash", contract_address, &err)),
            ),
            Some(Ok(Some(value))) => Lookup::Done(Ok(ClassHash(value))),
            Some(Ok(None)) => Lookup::Done(Ok(ClassHash(Felt::zero()))),
        }
    }

    /// The runnable form of a class.
    ///
    /// `found` is what the view has under the hash: nothing, or the class's runnable form, or none
    /// where the class cannot be brought into that form.
    pub fn get_compiled_class(
        &self,
        class_hash: ClassHash,
        found: Result<Option<Option<RunnableCompiledClass>>, String>,
    ) -> (outcome: Result<RunnableCompiledClass, StateError>)
        ensures
            match found {
                Err(err) => is_read_failure(
                    outcome,
                    class_failure("class"@, self@.view, class_hash.0, err@),
                ),
                Ok(None) => outcome == Err::<RunnableCompiledClass, StateError>(
                    StateError::UndeclaredClassHash(class_hash),
                ),
                Ok(Some(None)) => is_read_failure(outcome, class_conversion_failure(class_hash.0)),
                Ok(Some(Some(class))) => outcome == Ok::<RunnableCompiledClass, StateError>(class),
            },
    {
        match found {
            Err(err) => Err(self.class_error("class", class_hash, &err)),
            Ok(None) => Err(StateError::UndeclaredClassHash(class_hash)),
            Ok(Some(None)) => {
                let mut text = String::from_str("Failed to convert class ");
                text.append(class_hash_display(class_hash.0).as_str());
                Err(StateError::StateReadError(text))
            },
            Ok(Some(Some(class))) => Ok(class),
        }
    }

    /// The compiled form of a class: as the cache has it, or else as the view has it.
    ///
    /// `found` is what the view has under the hash, once it has been asked: nothing, or the hash
    /// of the class's compiled form, or none where the class has no such form.
    pub fn get_compiled_class_hash(
        &self,
        class_hash: ClassHash,
        found: Option<Result<Option<Option<Felt>>, String>>,
    ) -> (lookup: Lookup<CompiledClassHash>)
        ensures
            match (self@.cache.compiled_class_hash(class_hash), found) {
                (Some(compiled), _) => lookup == Lookup::Done(Ok(compiled)),
                (None, None) => lookup == Lookup::<CompiledClassHash>::AskView,
                (None, Some(Ok(Some(Some(value))))) => lookup == Lookup::Done(
                    Ok(CompiledClassHash(value)),
                ),
                (None, Some(Ok(_))) => lookup matches Lookup::Done(outcome) && is_read_failure(
                    outcome,
                    no_compiled_class_hash(self@.view, class_hash.0),
                ),
                (None, Some(Err(err))) => lookup matches Lookup::Done(outcome) && is_read_failure(
                    outcome,
                    class_failure("class_hash"@, self@.view, class_hash.0, err@),
                ),
            },
    {
        if let Some(compiled) = self.cache.get_compiled_class_hash(class_hash) {
            return Lookup::Done(Ok(compiled));
        }
        match found {
            None => Lookup::AskView,
            Some(Err(err)) => Lookup::Done(Err(self.class_error("class_hash", class_hash, &err))),
            Some(Ok(Some(Some(value)))) => Lookup::Done(Ok(CompiledClassHash(value))),
            Some(Ok(_)) => {
                let mut text = String::from_str("Class does not have a compiled class hash: on=");
                text.append(self.view.as_str());
                text.append(", class_hash=");
                text.append(felt_lower_hex(class_hash.0).as_str());
                Lookup::Done(Err(StateError::StateReadError(text)))
            },
        }
    }

    fn l1_handler_error(&self, what: &str, nonce: u64, err: &String) -> (error: StateError)
        ensures
            error matches StateError::StateReadError(text) && text@ == l1_handler_failure(
                what@,
                self@.view,
                nonce,
                err@,
            ),
    {
        let mut text = String::from_str("Failed to l1 handler ");
        text.append(what);
        text.append(": on=");
        text.append(self.view.as_str());
        text.append(", nonce=");
        text.append(decimal(nonce).as_str());
        text.append(": ");
        text.append(err.as_str());
        StateError::StateReadError(text)
    }

    fn contract_error(
        &self,
        what: &str,
        contract_address: ContractAddress,
        err: &String,
    ) -> (error: StateError)
        ensures
            error matches StateError::StateReadError(text) && text@ == contract_failure(
                what@,
                self@.view,
                contract_address.felt(),
                err@,
            ),
    {
        let mut text = String::from_str("Failed to retrieve ");
        text.append(what);
        text.append(": on=");
        text.append(self.view.as_str());
        text.append(", contract_address=");
        text.append(felt_lower_hex(contract_address.to_felt()).as_str());
        text.append(": ");
        text.append(err.as_str());
        StateError::StateReadError(text)
    }

    fn class_error(&self, what: &str, class_hash: ClassHash, err: &String) -> (error: StateError)
        ensures
            error matches StateError::StateReadError(text) && text@ == class_failure(
                what@,
                self@.view,
                class_hash.0,
                err@,
            ),
    {
        let mut text = String::from_str("Failed to retrieve ");
        text.append(what);
        text.append(": on=");
        text.append(self.view.as_str());
        text.append(", class_hash=");
        text.append(felt_lower_hex(class_hash.0).as_str());
        text.append(": ");
        text.append(err.as_str());
        StateError::StateReadError(text)
    }
}

/// Whether the text has the part in it.
pub open spec fn tells(text: Seq<char>, part: Seq<char>) -> bool {
    exists|i: int|
        0 <= i <= text.len() - part.len() && #[trigger] text.subrange(i, i + part.len()) == part
}

/// A text tells what it was put together from.
proof fn lemma_tells(before: Seq<char>, part: Seq<char>, behind: Seq<char>)
    ensures
        tells(before + part + behind, part),
{
    let text = before + part + behind;
    let i = before.len() as int;
    assert(text.subrange(i, i + part.len()) =~= part);
}

/// A text tells two parts that it was put together from.
proof fn lemma_tells_parts(
    before: Seq<char>,
    first: Seq<char>,
    between: Seq<char>,
    second: Seq<char>,
    behind: Seq<char>,
)
    ensures
        tells(before + first + between + second + behind, first),
        tells(before + first + between + second + behind, second),
{
    lemma_tells(before, first, between + second + behind);
    assert(before + first + between + second + behind =~= before + first + (between + second + behind));
    lemma_tells(before + first + between, second, behind);
}

/// A field element is shown by digits that read back as its value, after `0x`.
pub proof fn hexadecimal_shows_the_value(felt: Felt)
    ensures
        hex(felt).len() > 2,
        hex(felt)[0] == '0',
        hex(felt)[1] == 'x',
        read(hex(felt).skip(2), 16) == felt.value(),
        felt.value() > 0 ==> hex(felt)[2] != '0',
{
    a_numeral_reads_back(felt.value(), 16);
    assert(hex(felt).skip(2) =~= numeral(felt.value(), 16));
}

/// The message for a storage cell tells the view, the contract, the key and what went wrong.
pub proof fn storage_failures_tell_what_was_asked(
    on: Seq<char>,
    contract_address: Felt,
    key: Felt,
    err: Seq<char>,
)
    ensures
        tells(storage_failure(on, contract_address, key, err), on),
        tells(storage_failure(on, contract_address, key, err), hex(contract_address)),
        tells(storage_failure(on, contract_address, key, err), hex(key)),
        tells(storage_failure(on, contract_address, key, err), err),
{
    let start = "Failed to retrieve storage value: on="@;
    let address_is = ", contract_address="@;
    let (a, k) = (hex(contract_address), hex(key));
    lemma_tells_parts(start, on, address_is, a, " key="@ + k + ": "@ + err);
    lemma_tells_parts(start + on + address_is + a + " key="@, k, ": "@, err, Seq::empty());
    let text = storage_failure(on, contract_address, key, err);
    assert(text =~= start + on + address_is + a + (" key="@ + k + ": "@ + err));
    assert(text =~= (start + on + address_is + a + " key="@) + k + ": "@ + err + Seq::<char>::empty());
}

/// The message for a contract tells what was asked, the view, the contract and what went wrong.
pub proof fn contract_failures_tell_what_was_asked(
    what: Seq<char>,
    on: Seq<char>,
    contract_address: Felt,
    err: Seq<char>,
)
    ensures
        tells(contract_failure(what, on, contract_address, err), what),
        tells(contract_failure(what, on, contract_address, err), on),
        tells(contract_failure(what, on, contract_address, err), hex(contract_address)),
        tells(contract_failure(what, on, contract_address, err), err),
{
    let start = "Failed to retrieve "@;
    let address_is = ", contract_address="@;
    let a = hex(contract_address);
    lemma_tells_parts(start, what, ": on="@, on, address_is + a + ": "@ + err);
    lemma_tells_parts(start + what + ": on="@ + on + address_is, a, ": "@, err, Seq::empty());
    let text = contract_failure(what, on, contract_address, err);
    assert(text =~= start + what + ": on="@ + on + (address_is + a + ": "@ + err));
    assert(text =~= (start + what + ": on="@ + on + address_is) + a + ": "@ + err + Seq::<char>::empty());
}

/// The message for a class tells what was asked, the view, the class and what went wrong.
pub proof fn class_failures_tell_what_was_asked(
    what: Seq<char>,
    on: Seq<char>,
    class_hash: Felt,
    err: Seq<char>,
)
    ensures
        tells(class_failure(what, on, class_hash, err), what),
        tells(class_failure(what, on, class_hash, err), on),
        tells(class_failure(what, on, class_hash, err), hex(class_hash)),
        tells(class_failure(what, on, class_hash, err), err),
{
    let start = "Failed to retrieve "@;
    let hash_is = ", class_hash="@;
    let h = hex(class_hash);
    lemma_tells_parts(start, what, ": on="@, on, hash_is + h + ": "@ + err);
    lemma_tells_parts(start + what + ": on="@ + on + hash_is, h, ": "@, err, Seq::empty());
    let text = class_failure(what, on, class_hash, err);
    assert(text =~= start + what + ": on="@ + on + (hash_is + h + ": "@ + err));
    assert(text =~= (start + what + ": on="@ + on + hash_is) + h + ": "@ + err + Seq::<char>::empty());
}

/// The messages for a class without a compiled or runnable form tell the class, and the former the view.
pub proof fn missing_forms_are_told(on: Seq<char>, class_hash: Felt)
    ensures
        tells(no_compiled_class_hash(on, class_hash), on),
        tells(no_compiled_class_hash(on, class_hash), hex(class_hash)),
        tells(class_conversion_failure(class_hash), numeral(class_hash.value(), 10)),
{
    let start = "Class does not have a compiled class hash: on="@;
    let hash_is = ", class_hash="@;
    let h = hex(class_hash);
    lemma_tells_parts(start, on, hash_is, h, Seq::empty());
    assert(no_compiled_class_hash(on, class_hash) =~= start + on + hash_is + h + Seq::<char>::empty());
    let digits = numeral(class_hash.value(), 10);
    lemma_tells("Failed to convert class "@, digits, Seq::empty());
    assert(class_conversion_failure(class_hash) =~= "Failed to convert class "@ + digits + Seq::<
        char,
    >::empty());
}

/// The message for a message's transaction tells what was asked, the view, the nonce and what went
/// wrong.
pub proof fn l1_handler_failures_tell_what_was_asked(
    what: Seq<char>,
    on: Seq<char>,
    nonce: u64,
    err: Seq<char>,
)
    ensures
        tells(l1_handler_failure(what, on, nonce, err), what),
        tells(l1_handler_failure(what, on, nonce, err), on),
        tells(l1_handler_failure(what, on, nonce, err), numeral(nonce as nat, 10)),
        tells(l1_handler_failure(what, on, nonce, err), err),
{
    let start = "Failed to l1 handler "@;
    let n = numeral(nonce as nat, 10);
    lemma_tells_parts(start, what, ": on="@, on, ", nonce="@ + n + ": "@ + err);
    lemma_tells_parts(start + what + ": on="@ + on + ", nonce="@, n, ": "@, err, Seq::empty());
    let text = l1_handler_failure(what, on, nonce, err);
    assert(text =~= start + what + ": on="@ + on + (", nonce="@ + n + ": "@ + err));
    assert(text =~= (start + what + ": on="@ + on + ", nonce="@) + n + ": "@ + err + Seq::<char>::empty());
}

/// A failure to read is an error with exactly its message, and no other outcome is one.
pub proof fn a_read_failure_has_its_message<T>(outcome: Result<T, StateError>, message: Seq<char>)
    ensures
        is_read_failure(outcome, message) <==> exists|text: String|
            #[trigger] text@ == message && outcome == Err::<T, StateError>(
                StateError::StateReadError(text),
            ),
{
    if is_read_failure(outcome, message) {
        let text = outcome->Err_0->StateReadError_0;
        assert(text@ == message);
    }
}

} // verus!
