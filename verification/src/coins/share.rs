//! Tokens with decimal amounts.
use vstd::prelude::*;

use super::ops::{add_spec, sub_spec};
use super::pool::PoolValue;
use super::traits::{Balance, Give, Symbol, Take, Wf};
use super::{Amount, Coin, Decimal};
use crate::error::{coins_error, fails_with, Error, Result};
use core::marker::PhantomData;

verus! {

/// Represents a share of a specific coin type. Similar to a `[Coin]` but using
/// a `Decimal` to represent the amount.
#[derive(Debug)]
pub struct Share<S: Symbol> {
    /// The amount.
    pub shares: Decimal,
    /// Phantom data to hold the symbol type.
    pub symbol: PhantomData<S>,
}

impl<S: Symbol> Share<S> {
    /// Creates a new `Share` with zero shares.
    pub fn new() -> (r: Self)
        ensures
            r.wf(),
            r.shares == Decimal::zero_spec(),
    {
        Share { shares: Decimal::zero(), symbol: PhantomData }
    }

    /// Converts the share's decimal value to an `Amount`.
    pub fn amount(&self) -> (r: Result<Amount>)
        requires
            self.wf(),
        ensures
            self.shares.amount_post(r),
    {
        self.shares.amount()
    }
}

impl<S: Symbol> Default for Share<S> {
    fn default() -> (r: Self)
        ensures
            r.wf(),
            r.shares == Decimal::zero_spec(),
    {
        Share::new()
    }
}

impl<S: Symbol> Wf for Share<S> {
    open spec fn wf(&self) -> bool {
        self.shares.wf()
    }
}

impl<S: Symbol> Balance<S, Amount> for Share<S> {
    open spec fn balance_post(&self, r: Result<Amount>) -> bool {
        self.shares.amount_post(r)
    }

    fn balance(&self) -> (r: Result<Amount>) {
        self.shares.amount()
    }
}

impl<S: Symbol> Balance<S, Decimal> for Share<S> {
    open spec fn balance_post(&self, r: Result<Decimal>) -> bool {
        r == Ok::<Decimal, Error>(self.shares)
    }

    fn balance(&self) -> (r: Result<Decimal>) {
        Ok(self.shares)
    }
}

impl<S: Symbol> Take<S, Amount> for Share<S> {
    type Value = Coin<S>;

    /// Taking more than the shares' value fails with "Insufficient balance";
    /// otherwise the amount is subtracted from the shares and minted as a
    /// coin. A failure leaves the shares unchanged.
    open spec fn take_post(self, amount: Amount, new: Self, r: Result<Coin<S>>) -> bool {
        if self.shares.less_than(Decimal::from_u64_spec(amount.value)) {
            new == self && fails_with(r, "Insufficient balance"@)
        } else {
            match sub_spec(self.shares, Decimal::from_u64_spec(amount.value)) {
                Ok(d) => new.shares == d && (r matches Ok(c) && c.amount == amount),
                Err(e) => new == self && r == Err::<Coin<S>, Error>(e),
            }
        }
    }

    fn take(&mut self, amount: Amount) -> (r: Result<Coin<S>>) {
        if self.shares.lt_amount(amount) {
            return Err(coins_error("Insufficient balance"));
        }
        self.shares = self.shares.sub_amount(amount)?;

        Ok(Coin::mint(amount))
    }
}

impl<S: Symbol> Give<Coin<S>> for Share<S> {
    /// The coin's amount is added to the shares; a failure leaves them
    /// unchanged.
    open spec fn give_post(self, coin: Coin<S>, new: Self, r: Result<()>) -> bool {
        match add_spec(Decimal::from_u64_spec(coin.amount.value), self.shares) {
            Ok(d) => new.shares == d && r == Ok::<(), Error>(()),
            Err(e) => new == self && r == Err::<(), Error>(e),
        }
    }

    fn give(&mut self, coin: Coin<S>) -> (r: Result<()>) {
        self.shares = self.shares.add_amount(coin.amount)?;

        Ok(())
    }
}

impl<S: Symbol> Give<(u8, Amount)> for Share<S> {
    /// Only the share's own denom may be given ("Invalid symbol index");
    /// its amount is added to the shares.
    open spec fn give_post(self, coin: (u8, Amount), new: Self, r: Result<()>) -> bool {
        if coin.0 != S::INDEX {
            new == self && fails_with(r, "Invalid symbol index"@)
        } else {
            match add_spec(Decimal::from_u64_spec(coin.1.value), self.shares) {
                Ok(d) => new.shares == d && r == Ok::<(), Error>(()),
                Err(e) => new == self && r == Err::<(), Error>(e),
            }
        }
    }

    fn give(&mut self, coin: (u8, Amount)) -> (r: Result<()>) {
        if coin.0 != S::INDEX {
            return Err(coins_error("Invalid symbol index"));
        }
        self.shares = self.shares.add_amount(coin.1)?;

        Ok(())
    }
}

impl<S: Symbol> From<Decimal> for Share<S> {
    fn from(amount: Decimal) -> (r: Self) {
        Share { shares: amount, symbol: PhantomData }
    }
}

impl<S: Symbol> vstd::std_specs::convert::FromSpecImpl<Decimal> for Share<S> {
    open spec fn obeys_from_spec() -> bool {
        true
    }

    open spec fn from_spec(amount: Decimal) -> Self {
        Share { shares: amount, symbol: PhantomData }
    }
}

impl<S: Symbol> From<Coin<S>> for Share<S> {
    fn from(coins: Coin<S>) -> (r: Self) {
        Share { shares: Decimal::from_amount(coins.amount), symbol: PhantomData }
    }
}

impl<S: Symbol> vstd::std_specs::convert::FromSpecImpl<Coin<S>> for Share<S> {
    open spec fn obeys_from_spec() -> bool {
        true
    }

    open spec fn from_spec(coins: Coin<S>) -> Self {
        Share { shares: Decimal::from_u64_spec(coins.amount.value), symbol: PhantomData }
    }
}

impl<S: Symbol> PoolValue<S> for Share<S> {
    open spec fn is_fresh(&self) -> bool {
        self.shares == Decimal::zero_spec()
    }

    fn empty() -> (r: Self) {
        Share::new()
    }

    proof fn lemma_balance_wf(v: Self, d: Decimal) {
    }
}

} // verus!
