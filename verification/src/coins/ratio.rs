//! Exact ratios of unsigned integers.
use vstd::prelude::*;

use super::Amount;
use crate::error::{Error, Result};

verus! {

/// The reduced `(numerator, denominator)` that `num_rational::Ratio::new`
/// makes of a fraction.
pub uninterp spec fn num_rational_reduced(numer: u64, denom: u64) -> (u64, u64);

/// Calls `num_rational::Ratio::<u64>::new`, which reduces the fraction by the
/// greatest common divisor of its terms; the claim is that the result is the
/// named one and has the same value as `numer / denom`, with a positive
/// denominator.
#[verifier::external_body]
fn reduce(numer: u64, denom: u64) -> (r: (u64, u64))
    requires
        denom > 0,
    ensures
        r == num_rational_reduced(numer, denom),
        r.1 > 0,
        r.0 * denom == numer * r.1,
{
    let x = num_rational::Ratio::new(numer, denom);
    (*x.numer(), *x.denom())
}

/// A ratio of unsigned integers, kept in lowest terms with a positive
/// denominator.
#[derive(Clone, Copy, Debug)]
pub struct Ratio {
    /// The numerator.
    pub numer: u64,
    /// The denominator.
    pub denom: u64,
}

impl Ratio {
    /// The denominator is positive.
    pub open spec fn wf(&self) -> bool {
        self.denom > 0
    }

    /// `self` and `other` stand for the same rational number.
    pub open spec fn same_value(&self, other: Ratio) -> bool {
        self.numer * other.denom == other.numer * self.denom
    }

    /// The ratio `numer / denom`; a zero denominator fails with
    /// [Error::DivideByZero].
    pub fn new(numer: u64, denom: u64) -> (r: Result<Self>)
        ensures
            denom == 0 ==> r == Err::<Ratio, Error>(Error::DivideByZero),
            denom > 0 ==> (r matches Ok(q) && q.wf() && (q.numer, q.denom) == num_rational_reduced(
                numer,
                denom,
            ) && q.numer * denom == numer * q.denom),
    {
        if denom == 0 {
            return Err(Error::DivideByZero);
        }
        let (n, d) = reduce(numer, denom);
        Ok(Ratio { numer: n, denom: d })
    }

    /// The whole ratio `value / 1`.
    pub fn from_u64(value: u64) -> (r: Self)
        ensures
            r.wf(),
            r.numer == value,
            r.denom == 1,
    {
        Ratio { numer: value, denom: 1 }
    }

    /// The ratio of an amount.
    pub fn from_amount(amount: Amount) -> (r: Self)
        ensures
            r.wf(),
            r.numer == amount.value,
            r.denom == 1,
    {
        Ratio::from_u64(amount.value)
    }

    /// The integer part of the ratio (rounding down) as an amount.
    pub fn amount(&self) -> (r: Amount)
        requires
            self.wf(),
        ensures
            r.value == self.numer / self.denom,
    {
        Amount::new(self.numer / self.denom)
    }

    /// Whether `self` is less than `other`.
    pub fn lt(&self, other: &Ratio) -> (r: bool)
        requires
            self.wf(),
            other.wf(),
        ensures
            r == (self.numer * other.denom < other.numer * self.denom),
    {
        let a = self.numer as u128;
        let b = other.denom as u128;
        let c = other.numer as u128;
        let d = self.denom as u128;
        proof {
            lemma_product_fits(a, b);
            lemma_product_fits(c, d);
        }
        a * b < c * d
    }

    /// Whether `self` and `other` stand for the same number.
    pub fn value_eq(&self, other: &Ratio) -> (r: bool)
        requires
            self.wf(),
            other.wf(),
        ensures
            r == self.same_value(*other),
    {
        let a = self.numer as u128;
        let b = other.denom as u128;
        let c = other.numer as u128;
        let d = self.denom as u128;
        proof {
            lemma_product_fits(a, b);
            lemma_product_fits(c, d);
        }
        a * b == c * d
    }
}

impl Default for Ratio {
    fn default() -> (r: Self)
        ensures
            r.wf(),
            r.numer == 0,
            r.denom == 1,
    {
        Ratio::from_u64(0)
    }
}

/// The product of two values of `u64` range fits in a `u128`.
proof fn lemma_product_fits(a: u128, b: u128)
    requires
        a <= u64::MAX,
        b <= u64::MAX,
    ensures
        a * b <= u128::MAX,
{
    assert(a * b <= (u64::MAX as int) * (u64::MAX as int)) by (nonlinear_arith)
        requires
            a <= u64::MAX,
            b <= u64::MAX,
    ;
}

/// A reduced ratio has the value of the fraction it was made from.
pub proof fn lemma_ratio_keeps_value(numer: u64, denom: u64, q: Ratio)
    requires
        denom > 0,
        q.wf(),
        q.numer * denom == numer * q.denom,
    ensures
        q.same_value(Ratio { numer, denom }),
{
}

} // verus!
