//! Field elements.
use vstd::prelude::*;

verus! {

/// Two to the power of 128: the weight of a field element's upper half.
pub open spec fn half_weight() -> nat {
    0x1_0000_0000_0000_0000_0000_0000_0000_0000nat
}

/// The order of the field: 2^251 + 17 * 2^192 + 1.
pub open spec fn field_order() -> nat {
    0x800000000000011000000000000000000000000000000000000000000000001nat
}

/// Two to the power of 251: the first number that is no key of a Patricia tree.
pub open spec fn patricia_key_upper_bound() -> nat {
    0x800000000000000000000000000000000000000000000000000000000000000nat
}

/// The upper half of the field order; the lower half is 1.
const FIELD_ORDER_HIGH: u128 = 0x8000000000000110000000000000000;

/// An element of the field over which contracts, keys and values are numbered.
#[derive(Clone, Copy, PartialEq, Eq, Structural, Debug, Hash)]
pub struct Felt {
    high: u128,
    low: u128,
}

impl Felt {
    /// The number that the element stands for, below the field order.
    pub closed spec fn value(self) -> nat {
        (self.high * half_weight() + self.low) as nat
    }

    #[verifier::type_invariant]
    spec fn in_field(self) -> bool {
        self.value() < field_order()
    }

    /// The element whose value is `high * 2^128 + low`, if the field has one.
    pub fn new(high: u128, low: u128) -> (felt: Option<Felt>)
        ensures
            felt is Some <==> high * half_weight() + low < field_order(),
            felt matches Some(f) ==> f.value() == high * half_weight() + low,
    {
        if high < FIELD_ORDER_HIGH || (high == FIELD_ORDER_HIGH && low == 0) {
            Some(Felt { high, low })
        } else {
            None
        }
    }

    /// The element whose value is zero.
    pub fn zero() -> (felt: Felt)
        ensures
            felt.value() == 0,
    {
        Felt { high: 0, low: 0 }
    }

    /// The value's quotient by 2^128.
    pub fn high(&self) -> (high: u128)
        ensures
            high == self.value() / half_weight(),
    {
        self.high
    }

    /// The value's remainder by 2^128.
    pub fn low(&self) -> (low: u128)
        ensures
            low == self.value() % half_weight(),
    {
        self.low
    }

    /// Every 64-bit number is the value of an element.
    pub proof fn numbers_are_values(number: u64) -> (felt: Felt)
        ensures
            felt.value() == number,
    {
        Felt { high: 0, low: number as u128 }
    }

    /// Elements with the same value are the same element.
    pub proof fn value_is_injective(self, other: Felt)
        requires
            self.value() == other.value(),
        ensures
            self == other,
    {
    }
}

impl Default for Felt {
    fn default() -> (felt: Felt)
        ensures
            felt.value() == 0,
    {
        Felt::zero()
    }
}

} // verus!
