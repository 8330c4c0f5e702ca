//! Addresses, keys, nonces and class hashes.
use crate::felt::{patricia_key_upper_bound, Felt};
use crate::outside::{contract_address_from_u64, patricia_key_try_from, storage_key_from_u64};
use vstd::prelude::*;

verus! {

/// A key of a Patricia tree: a field element below 2^251.
#[derive(Clone, Copy, PartialEq, Eq, Structural, Debug, Hash)]
pub struct PatriciaKey {
    key: Felt,
}

impl PatriciaKey {
    /// The field element that the key is.
    pub closed spec fn felt(self) -> Felt {
        self.key
    }

    #[verifier::type_invariant]
    spec fn in_range(self) -> bool {
        self.key.value() < patricia_key_upper_bound()
    }

    /// The key that `felt` is, if it is one.
    pub fn try_from_felt(felt: Felt) -> (key: Option<PatriciaKey>)
        ensures
            key is Some <==> felt.value() < patricia_key_upper_bound(),
            key matches Some(k) ==> k.felt() == felt,
    {
        match patricia_key_try_from(felt) {
            Ok(key) => Some(PatriciaKey { key }),
            Err(_) => None,
        }
    }

    /// The field element that the key is.
    pub fn to_felt(&self) -> (felt: Felt)
        ensures
            felt == self.felt(),
            felt.value() < patricia_key_upper_bound(),
    {
        proof {
            use_type_invariant(self);
        }
        self.key
    }

    /// Every 64-bit number is a key.
    pub proof fn numbers_are_keys(number: u64) -> (key: PatriciaKey)
        ensures
            key.felt().value() == number,
    {
        PatriciaKey { key: Felt::numbers_are_values(number) }
    }

    /// Keys made of the same field element are the same key.
    pub proof fn felt_is_injective(self, other: PatriciaKey)
        requires
            self.felt() == other.felt(),
        ensures
            self == other,
    {
    }
}

/// The address of a contract.
#[derive(Clone, Copy, PartialEq, Eq, Structural, Debug, Hash)]
pub struct ContractAddress(pub PatriciaKey);

/// The key of a cell in a contract's storage.
#[derive(Clone, Copy, PartialEq, Eq, Structural, Debug, Hash)]
pub struct StorageKey(pub PatriciaKey);

/// A cell of a contract's storage.
#[derive(Clone, Copy, PartialEq, Eq, Structural, Debug, Hash)]
pub struct StorageEntry {
    pub contract_address: ContractAddress,
    pub key: StorageKey,
}

/// The number of transactions that an account has sent, or the number of a message.
#[derive(Clone, Copy, PartialEq, Eq, Structural, Debug, Hash)]
pub struct Nonce(pub Felt);

/// The hash of a declared class.
#[derive(Clone, Copy, PartialEq, Eq, Structural, Debug, Hash)]
pub struct ClassHash(pub Felt);

/// The hash of a class's compiled form.
#[derive(Clone, Copy, PartialEq, Eq, Structural, Debug, Hash)]
pub struct CompiledClassHash(pub Felt);

impl ContractAddress {
    /// The field element that the address is.
    pub open spec fn felt(self) -> Felt {
        self.0.felt()
    }

    /// The field element that the address is.
    pub fn to_felt(&self) -> (felt: Felt)
        ensures
            felt == self.felt(),
    {
        self.0.to_felt()
    }

    /// The address with the given number.
    pub fn from_u64(number: u64) -> (address: ContractAddress)
        ensures
            address.felt().value() == number,
    {
        ContractAddress(PatriciaKey { key: contract_address_from_u64(number) })
    }
}

impl StorageKey {
    /// The field element that the key is.
    pub open spec fn felt(self) -> Felt {
        self.0.felt()
    }

    /// The field element that the key is.
    pub fn to_felt(&self) -> (felt: Felt)
        ensures
            felt == self.felt(),
    {
        self.0.to_felt()
    }

    /// The key with the given number.
    pub fn from_u64(number: u64) -> (key: StorageKey)
        ensures
            key.felt().value() == number,
    {
        StorageKey(PatriciaKey { key: storage_key_from_u64(number) })
    }
}

/// Reads a field element as a contract address.
pub fn convert_felt_to_contract_address(felt: Felt) -> (address: ContractAddress)
    requires
        felt.value() < patricia_key_upper_bound(),
    ensures
        address.felt() == felt,
{
    ContractAddress(
        PatriciaKey::try_from_felt(felt).expect("Failed to convert contract address to Patricia Key"),
    )
}

/// Reads a field element as a storage key.
pub fn convert_felt_to_storage_key(felt: Felt) -> (key: StorageKey)
    requires
        felt.value() < patricia_key_upper_bound(),
    ensures
        key.felt() == felt,
{
    StorageKey(PatriciaKey::try_from_felt(felt).expect("Failed to convert storage key to Patricia Key"))
}

} // verus!
