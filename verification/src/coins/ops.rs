//! Checked arithmetic and comparisons between amounts and decimals.
use vstd::prelude::*;

use super::decimal::{
    rd_checked_add, rd_checked_div, rd_checked_mul, rd_checked_sub, rd_eq, rd_lt,
    rust_decimal_checked_add, rust_decimal_checked_div, rust_decimal_checked_mul,
    rust_decimal_checked_sub,
};
use super::{Amount, Decimal};
use crate::error::{Error, Result};

verus! {

/// `Ok` of the present decimal, or `Err(e)`.
pub open spec fn ok_or(o: Option<Decimal>, e: Error) -> Result<Decimal> {
    match o {
        Some(d) => Ok(d),
        None => Err(e),
    }
}

/// The sum of two decimals, as `rust_decimal` computes it.
pub open spec fn add_spec(a: Decimal, b: Decimal) -> Result<Decimal> {
    ok_or(rust_decimal_checked_add(a, b), Error::Overflow)
}

/// The difference of two decimals, as `rust_decimal` computes it.
pub open spec fn sub_spec(a: Decimal, b: Decimal) -> Result<Decimal> {
    ok_or(rust_decimal_checked_sub(a, b), Error::Overflow)
}

/// The product of two decimals, as `rust_decimal` computes it.
pub open spec fn mul_spec(a: Decimal, b: Decimal) -> Result<Decimal> {
    ok_or(rust_decimal_checked_mul(a, b), Error::Overflow)
}

/// The quotient of two decimals, as `rust_decimal` computes it.
pub open spec fn div_spec(a: Decimal, b: Decimal) -> Result<Decimal> {
    ok_or(rust_decimal_checked_div(a, b), Error::DivideByZero)
}

/// A decimal result that is `Ok` holds a well-formed decimal.
pub open spec fn wf_result(r: Result<Decimal>) -> bool {
    r matches Ok(d) ==> d.wf()
}

impl Decimal {
    /// Adds two decimals, failing with [Error::Overflow].
    pub fn checked_add(self, other: Decimal) -> (r: Result<Decimal>)
        requires
            self.wf(),
            other.wf(),
        ensures
            r == add_spec(self, other),
            wf_result(r),
    {
        match rd_checked_add(self, other) {
            Some(d) => Ok(d),
            None => Err(Error::Overflow),
        }
    }

    /// Subtracts `other` from `self`, failing with [Error::Overflow].
    pub fn checked_sub(self, other: Decimal) -> (r: Result<Decimal>)
        requires
            self.wf(),
            other.wf(),
        ensures
            r == sub_spec(self, other),
            wf_result(r),
    {
        match rd_checked_sub(self, other) {
            Some(d) => Ok(d),
            None => Err(Error::Overflow),
        }
    }

    /// Multiplies two decimals, failing with [Error::Overflow].
    pub fn checked_mul(self, other: Decimal) -> (r: Result<Decimal>)
        requires
            self.wf(),
            other.wf(),
        ensures
            r == mul_spec(self, other),
            wf_result(r),
    {
        match rd_checked_mul(self, other) {
            Some(d) => Ok(d),
            None => Err(Error::Overflow),
        }
    }

    /// Divides `self` by `other`, failing with [Error::DivideByZero] when
    /// `other` is zero or the quotient overflows.
    pub fn checked_div(self, other: Decimal) -> (r: Result<Decimal>)
        requires
            self.wf(),
            other.wf(),
        ensures
            r == div_spec(self, other),
            other.mag() == 0 ==> r == Err::<Decimal, Error>(Error::DivideByZero),
            wf_result(r),
    {
        match rd_checked_div(self, other) {
            Some(d) => Ok(d),
            None => Err(Error::DivideByZero),
        }
    }

    /// Adds an amount to a decimal.
    pub fn add_amount(self, other: Amount) -> (r: Result<Decimal>)
        requires
            self.wf(),
        ensures
            r == add_spec(Decimal::from_u64_spec(other.value), self),
            wf_result(r),
    {
        Decimal::from_amount(other).checked_add(self)
    }

    /// Subtracts an amount from a decimal.
    pub fn sub_amount(self, other: Amount) -> (r: Result<Decimal>)
        requires
            self.wf(),
        ensures
            r == sub_spec(self, Decimal::from_u64_spec(other.value)),
            wf_result(r),
    {
        self.checked_sub(Decimal::from_amount(other))
    }

    /// Multiplies a decimal by an amount.
    pub fn mul_amount(self, other: Amount) -> (r: Result<Decimal>)
        requires
            self.wf(),
        ensures
            r == mul_spec(Decimal::from_u64_spec(other.value), self),
            wf_result(r),
    {
        Decimal::from_amount(other).checked_mul(self)
    }

    /// Whether the value of `self` is less than that of `other`.
    pub fn lt(&self, other: &Decimal) -> (r: bool)
        requires
            self.wf(),
            other.wf(),
        ensures
            r == self.less_than(*other),
    {
        rd_lt(*self, *other)
    }

    /// Whether the value of `self` is greater than that of `other`.
    pub fn gt(&self, other: &Decimal) -> (r: bool)
        requires
            self.wf(),
            other.wf(),
        ensures
            r == other.less_than(*self),
    {
        rd_lt(*other, *self)
    }

    /// Whether the two decimals have the same value.
    pub fn value_eq(&self, other: &Decimal) -> (r: bool)
        requires
            self.wf(),
            other.wf(),
        ensures
            r == self.same_value(*other),
    {
        rd_eq(*self, *other)
    }

    /// Whether the value of the decimal is less than the amount.
    pub fn lt_amount(&self, other: Amount) -> (r: bool)
        requires
            self.wf(),
        ensures
            r == self.less_than(Decimal::from_u64_spec(other.value)),
    {
        rd_lt(*self, Decimal::from_amount(other))
    }

    /// Whether the value of the decimal is greater than the amount.
    pub fn gt_amount(&self, other: Amount) -> (r: bool)
        requires
            self.wf(),
        ensures
            r == Decimal::from_u64_spec(other.value).less_than(*self),
    {
        rd_lt(Decimal::from_amount(other), *self)
    }
}

impl Amount {
    /// Adds a decimal to an amount.
    pub fn add_decimal(self, other: Decimal) -> (r: Result<Decimal>)
        requires
            other.wf(),
        ensures
            r == add_spec(Decimal::from_u64_spec(self.value), other),
            wf_result(r),
    {
        Decimal::from_amount(self).checked_add(other)
    }

    /// Subtracts a decimal from an amount.
    pub fn sub_decimal(self, other: Decimal) -> (r: Result<Decimal>)
        requires
            other.wf(),
        ensures
            r == sub_spec(Decimal::from_u64_spec(self.value), other),
            wf_result(r),
    {
        Decimal::from_amount(self).checked_sub(other)
    }

    /// Multiplies an amount by a decimal.
    pub fn mul_decimal(self, other: Decimal) -> (r: Result<Decimal>)
        requires
            other.wf(),
        ensures
            r == mul_spec(Decimal::from_u64_spec(self.value), other),
            wf_result(r),
    {
        Decimal::from_amount(self).checked_mul(other)
    }

    /// Divides an amount by another, giving a decimal.
    pub fn div_amount(self, other: Amount) -> (r: Result<Decimal>)
        ensures
            r == div_spec(Decimal::from_u64_spec(self.value), Decimal::from_u64_spec(other.value)),
            other.value == 0 ==> r == Err::<Decimal, Error>(Error::DivideByZero),
            wf_result(r),
    {
        Decimal::from_amount(self).checked_div(Decimal::from_amount(other))
    }

    /// Divides an amount by a decimal.
    pub fn div_decimal(self, other: Decimal) -> (r: Result<Decimal>)
        requires
            other.wf(),
        ensures
            r == div_spec(Decimal::from_u64_spec(self.value), other),
            other.mag() == 0 ==> r == Err::<Decimal, Error>(Error::DivideByZero),
            wf_result(r),
    {
        Decimal::from_amount(self).checked_div(other)
    }
}

} // verus!
