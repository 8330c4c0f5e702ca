//! Field elements and the keys made of them.
use block_production::felt::Felt;
use block_production::keys::{convert_felt_to_contract_address, convert_felt_to_storage_key, ContractAddress, PatriciaKey, StorageKey};

/// The field element with the given value.
fn felt(value: u128) -> Felt {
    Felt::new(0, value).unwrap()
}

#[test]
fn felts_are_below_the_field_order() {
    let top: u128 = 0x8000000000000110000000000000000;
    assert!(Felt::new(top, 0).is_some());
    assert!(Felt::new(top, 1).is_none());
    assert!(Felt::new(top - 1, u128::MAX).is_some());
    let last = Felt::new(top, 0).unwrap();
    assert_eq!(last.high(), top);
    assert_eq!(last.low(), 0);
    assert_eq!(Felt::default(), felt(0));
}

#[test]
fn keys_are_below_two_to_the_251() {
    let bound: u128 = 1 << 123;
    assert!(PatriciaKey::try_from_felt(Felt::new(bound, 0).unwrap()).is_none());
    let last = Felt::new(bound - 1, u128::MAX).unwrap();
    let key = PatriciaKey::try_from_felt(last).unwrap();
    assert_eq!(key.to_felt(), last);
    assert_eq!(convert_felt_to_contract_address(last).to_felt(), last);
    assert_eq!(convert_felt_to_storage_key(last).to_felt(), last);
    assert_eq!(convert_felt_to_contract_address(felt(7)).to_felt(), felt(7));
}

#[test]
fn numbers_make_addresses_and_keys() {
    assert_eq!(ContractAddress::from_u64(1).to_felt(), felt(1));
    assert_eq!(ContractAddress::from_u64(u64::MAX).to_felt(), felt(0xffff_ffff_ffff_ffff));
    assert_eq!(StorageKey::from_u64(90).to_felt(), felt(90));
    assert_eq!(StorageKey::from_u64(0), convert_felt_to_storage_key(felt(0)));
}
