//! Safe integer amounts.
use vstd::prelude::*;

use crate::error::{Error, Result};

verus! {

/// Represents an amount (usually of coins) with safe arithmetic operations to
/// prevent overflows.
#[derive(Debug, Clone, Copy, PartialEq, Eq, Structural)]
pub struct Amount {
    /// The value of the amount.
    pub value: u64,
}

impl Amount {
    /// Creates a new amount with the given value.
    pub fn new(value: u64) -> (r: Self)
        ensures
            r.value == value,
    {
        Amount { value }
    }

    /// The value of the amount.
    pub fn value(&self) -> (r: u64)
        ensures
            r == self.value,
    {
        self.value
    }

    /// Adds two amounts, failing with [Error::Overflow] when the sum does not
    /// fit in a `u64`.
    pub fn checked_add(self, other: Amount) -> (r: Result<Amount>)
        ensures
            self.value + other.value <= u64::MAX ==> r == Ok::<Amount, Error>(
                Amount { value: (self.value + other.value) as u64 },
            ),
            self.value + other.value > u64::MAX ==> r == Err::<Amount, Error>(Error::Overflow),
    {
        match self.value.checked_add(other.value) {
            Some(value) => Ok(Amount { value }),
            None => Err(Error::Overflow),
        }
    }

    /// Subtracts `other` from `self`, failing with [Error::Overflow] when the
    /// difference would be negative.
    pub fn checked_sub(self, other: Amount) -> (r: Result<Amount>)
        ensures
            other.value <= self.value ==> r == Ok::<Amount, Error>(
                Amount { value: (self.value - other.value) as u64 },
            ),
            other.value > self.value ==> r == Err::<Amount, Error>(Error::Overflow),
    {
        match self.value.checked_sub(other.value) {
            Some(value) => Ok(Amount { value }),
            None => Err(Error::Overflow),
        }
    }

    /// Multiplies two amounts, failing with [Error::Overflow] when the product
    /// does not fit in a `u64`.
    pub fn checked_mul(self, other: Amount) -> (r: Result<Amount>)
        ensures
            self.value * other.value <= u64::MAX ==> r == Ok::<Amount, Error>(
                Amount { value: (self.value * other.value) as u64 },
            ),
            self.value * other.value > u64::MAX ==> r == Err::<Amount, Error>(Error::Overflow),
    {
        match self.value.checked_mul(other.value) {
            Some(value) => Ok(Amount { value }),
            None => Err(Error::Overflow),
        }
    }

    /// Whether `self` is less than `other`.
    pub fn lt(&self, other: &Amount) -> (r: bool)
        ensures
            r == (self.value < other.value),
    {
        self.value < other.value
    }
}

impl From<u64> for Amount {
    fn from(value: u64) -> (r: Self) {
        Amount::new(value)
    }
}

impl vstd::std_specs::convert::FromSpecImpl<u64> for Amount {
    open spec fn obeys_from_spec() -> bool {
        true
    }

    open spec fn from_spec(value: u64) -> Self {
        Amount { value }
    }
}

impl From<Amount> for u64 {
    fn from(amount: Amount) -> (r: Self) {
        amount.value
    }
}

impl vstd::std_specs::convert::FromSpecImpl<Amount> for u64 {
    open spec fn obeys_from_spec() -> bool {
        true
    }

    open spec fn from_spec(amount: Amount) -> Self {
        amount.value
    }
}

/// Adding then subtracting the same amount gives back the original amount,
/// whenever the addition does not overflow.
pub proof fn lemma_amount_add_sub_inverse(a: Amount, b: Amount)
    requires
        a.value + b.value <= u64::MAX,
    ensures
        ({
            let sum = Amount { value: (a.value + b.value) as u64 };
            &&& sum.value >= b.value
            &&& Amount { value: (sum.value - b.value) as u64 } == a
        }),
{
}

} // verus!
