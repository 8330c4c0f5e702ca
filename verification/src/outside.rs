//! What the library takes on trust from `rayon`, `starknet_api` and `starknet_types_core`.
//!
//! Each function here calls one function of those crates on plain values; its contract says what
//! that function returns.
use crate::append_batch::TransactionReceipt;
use crate::execution::{is_replay_of, replay_result};
use crate::felt::{patricia_key_upper_bound, Felt};
use crate::numeral::numeral;
use crate::state::CommitmentStateDiff;
use crate::transaction::TransactionExecutionResult;
use rayon::iter::{IntoParallelIterator, ParallelIterator};
use vstd::prelude::*;

verus! {

/// Why `starknet_api` refuses a value.
#[verifier::external_type_specification]
#[verifier::external_body]
pub struct ExStarknetApiError(starknet_api::StarknetApiError);

/// `PatriciaKey::try_from(Felt)` of `starknet_api`: it accepts exactly the elements below 2^251,
/// and the key it makes holds the element it was given.
#[verifier::external_body]
pub(crate) fn patricia_key_try_from(felt: Felt) -> (key: Result<Felt, starknet_api::StarknetApiError>)
    ensures
        key is Ok <==> felt.value() < patricia_key_upper_bound(),
        key matches Ok(k) ==> k == felt,
{
    let bytes: [u8; 32] = [felt.high().to_be_bytes(), felt.low().to_be_bytes()].concat().try_into().unwrap();
    let felt = starknet_types_core::felt::Felt::from_bytes_be(&bytes);
    let key = starknet_api::core::PatriciaKey::try_from(felt)?;
    let bytes = key.key().to_bytes_be();
    let high = u128::from_be_bytes(bytes[..16].try_into().unwrap());
    let low = u128::from_be_bytes(bytes[16..].try_into().unwrap());
    Ok(Felt::new(high, low).unwrap())
}

/// `ContractAddress::from(u64)` of `starknet_api`: the address whose field element has the given
/// value.
#[verifier::external_body]
pub(crate) fn contract_address_from_u64(number: u64) -> (address: Felt)
    ensures
        address.value() == number,
{
    let bytes = starknet_api::core::ContractAddress::from(number).0.key().to_bytes_be();
    let high = u128::from_be_bytes(bytes[..16].try_into().unwrap());
    let low = u128::from_be_bytes(bytes[16..].try_into().unwrap());
    Felt::new(high, low).unwrap()
}

/// `StorageKey::from(u64)` of `starknet_api`: the key whose field element has the given value.
#[verifier::external_body]
pub(crate) fn storage_key_from_u64(number: u64) -> (key: Felt)
    ensures
        key.value() == number,
{
    let bytes = starknet_api::state::StorageKey::from(number).0.key().to_bytes_be();
    let high = u128::from_be_bytes(bytes[..16].try_into().unwrap());
    let low = u128::from_be_bytes(bytes[16..].try_into().unwrap());
    Felt::new(high, low).unwrap()
}

/// `u64::try_from(Felt)` of `starknet_types_core`: it succeeds exactly on the elements below 2^64
/// and returns their value.
#[verifier::external_body]
pub(crate) fn u64_try_from_felt(felt: Felt) -> (number: Option<u64>)
    ensures
        number is Some <==> felt.value() <= u64::MAX,
        number matches Some(n) ==> n == felt.value(),
{
    let bytes: [u8; 32] = [felt.high().to_be_bytes(), felt.low().to_be_bytes()].concat().try_into().unwrap();
    u64::try_from(starknet_types_core::felt::Felt::from_bytes_be(&bytes)).ok()
}

/// The alternate `LowerHex` form of `starknet_types_core`'s `Felt`: `0x` and the value's
/// hexadecimal digits, without leading zeros.
#[verifier::external_body]
pub(crate) fn felt_lower_hex(felt: Felt) -> (text: String)
    ensures
        text@ == seq!['0', 'x'] + numeral(felt.value(), 16),
{
    let bytes: [u8; 32] = [felt.high().to_be_bytes(), felt.low().to_be_bytes()].concat().try_into().unwrap();
    format!("{:#x}", starknet_types_core::felt::Felt::from_bytes_be(&bytes))
}

/// The alternate `Display` form of `starknet_api`'s `ClassHash`: the value's decimal digits.
#[verifier::external_body]
pub(crate) fn class_hash_display(class_hash: Felt) -> (text: String)
    ensures
        text@ == numeral(class_hash.value(), 10),
{
    let felt = class_hash;
    let bytes: [u8; 32] = [felt.high().to_be_bytes(), felt.low().to_be_bytes()].concat().try_into().unwrap();
    format!("{:#}", starknet_api::core::ClassHash(starknet_types_core::felt::Felt::from_bytes_be(&bytes)))
}

/// `rayon`'s parallel map of a vector, collected into a vector: it applies `replay_result` to each
/// result, and what comes of each stands where the result stood.
#[verifier::external_body]
pub(crate) fn par_replay(
    results: Vec<(TransactionReceipt, CommitmentStateDiff)>,
) -> (replayed: Vec<TransactionExecutionResult>)
    ensures
        replayed@.len() == results@.len(),
        forall|i: int|
            0 <= i < results@.len() ==> is_replay_of(#[trigger] replayed@[i], results@[i]),
{
    results.into_par_iter().map(replay_result).collect()
}

} // verus!
