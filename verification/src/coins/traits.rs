//! Traits for value-holding types: symbols, balances, giving and taking.
use vstd::prelude::*;

use super::{Amount, Coin};
use crate::error::Result;

verus! {

/// The well-formedness of a value-holding type, which its operations require
/// and keep.
pub trait Wf {
    /// Holds when the value is well-formed.
    spec fn wf(&self) -> bool;
}

/// A type that uniquely identifies a token, with an associated name and
/// fixed identifier byte.
pub trait Symbol: Sized + Clone + Default + core::fmt::Debug {
    /// Identifier byte.
    const INDEX: u8;

    /// Human-readable symbol name.
    const NAME: &'static str;

    /// Mint a coin with this symbol.
    fn mint(amount: Amount) -> (r: Coin<Self>)
        ensures
            r.amount == amount,
    {
        Coin { amount, symbol: core::marker::PhantomData }
    }
}

/// Provides a unified way to access the balance of various coin-holding
/// values. It can be implemented for different underlying units, e.g. `Amount`
/// or `Decimal`.
pub trait Balance<S: Symbol, U>: Wf {
    /// Holds when `r` is what [Balance::balance] returns.
    spec fn balance_post(&self, r: Result<U>) -> bool;

    /// Returns the current balance for the given symbol.
    fn balance(&self) -> (r: Result<U>)
        requires
            self.wf(),
        ensures
            self.balance_post(r),
    ;
}

/// Trait for adding value to a receiver.
///
/// This trait is typically implemented for types that represent
/// accounts, balances, or other entities that can receive coins or
/// other forms of value.
pub trait Give<V>: Wf + Sized {
    /// Holds when `new` and `r` are the receiver after [Give::give] and its
    /// result.
    spec fn give_post(self, value: V, new: Self, r: Result<()>) -> bool;

    /// Tries to add the given value to the receiver.
    fn give(&mut self, value: V) -> (r: Result<()>)
        requires
            old(self).wf(),
        ensures
            old(self).give_post(value, *final(self), r),
            final(self).wf(),
    ;
}

/// A trait for types from which value may be taken.
pub trait Take<S: Symbol, U>: Wf + Sized {
    /// The value type returned by [Take::take].
    type Value;

    /// Holds when `new` and `r` are the source after [Take::take] and its
    /// result.
    spec fn take_post(self, amount: U, new: Self, r: Result<Self::Value>) -> bool;

    /// Take an amount of value.
    fn take(&mut self, amount: U) -> (r: Result<Self::Value>)
        requires
            old(self).wf(),
        ensures
            old(self).take_post(amount, *final(self), r),
            final(self).wf(),
    ;
}

/// A trait for types from which value may be destroyed.
pub trait Deduct<S: Symbol, U>: Sized {
    /// Destroy an amount of value.
    fn deduct(&mut self, amount: U) -> Result<()>;
}

/// Types from which their whole balance may be taken.
pub trait Transfer<S: Symbol, U>: Take<S, U> {
    /// Takes the whole balance.
    fn take_all(&mut self) -> (r: Result<Self::Value>)
        requires
            old(self).wf(),
        ensures
            final(self).wf(),
    ;
}

impl<S: Symbol, U, T: Balance<S, U> + Take<S, U>> Transfer<S, U> for T {
    fn take_all(&mut self) -> (r: Result<Self::Value>)
        ensures
            exists|b: Result<U>|
                {
                    &&& #[trigger] old(self).balance_post(b)
                    &&& b matches Ok(amount) ==> old(self).take_post(amount, *final(self), r)
                    &&& b is Err ==> r is Err && *final(self) == *old(self)
                },
    {
        let balance = self.balance()?;
        let taken = self.take(balance)?;

        Ok(taken)
    }
}

} // verus!
