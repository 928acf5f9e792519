//! Tokens with integer amounts.
use vstd::prelude::*;

use super::traits::{Balance, Give, Symbol, Take, Wf};
use super::{Amount, Decimal};
use crate::error::{coins_error, fails_with, Error, Result};
use core::marker::PhantomData;

verus! {

/// Represents a coin of a specific symbol type.
///
/// This type aims to prevent accidental creation of coins by encouraging
/// explicit minting, and making it more difficult to add amounts of different
/// symbols.
#[derive(Debug)]
pub struct Coin<S: Symbol> {
    /// The amount of the coin.
    pub amount: Amount,
    /// Phantom data to hold the symbol type.
    pub symbol: PhantomData<S>,
}

impl<S: Symbol> Coin<S> {
    /// Creates a new [Coin] with zero amount.
    pub fn new() -> (r: Self)
        ensures
            r.amount.value == 0,
    {
        Coin { amount: Amount::new(0), symbol: PhantomData }
    }

    /// Creates a new `Coin` with the specified amount.
    pub fn mint(amount: Amount) -> (r: Self)
        ensures
            r.amount == amount,
    {
        Coin { amount, symbol: PhantomData }
    }

    /// Transfers the coin to the given destination.
    pub fn transfer<G: Give<Coin<S>>>(self, dest: &mut G) -> (r: Result<()>)
        requires
            old(dest).wf(),
        ensures
            old(dest).give_post(self, *final(dest), r),
            final(dest).wf(),
    {
        dest.give(self)
    }

    /// Consume the coin.
    pub fn burn(self) {
    }

    /// Takes coins from self and transfers them to the funding of the call
    /// (the `Paid` context), as the amount of this coin's denom.
    pub fn take_as_funding<G: Give<(u8, Amount)>>(&mut self, amount: Amount, paid: &mut G) -> (r:
        Result<()>)
        requires
            old(paid).wf(),
        ensures
            amount.value > old(self).amount.value ==> {
                &&& fails_with(r, "Insufficient funds"@)
                &&& *final(self) == *old(self)
                &&& *final(paid) == *old(paid)
            },
            amount.value <= old(self).amount.value ==> {
                &&& final(self).amount.value == old(self).amount.value - amount.value
                &&& old(paid).give_post((S::INDEX, amount), *final(paid), r)
            },
            final(paid).wf(),
    {
        let taken_coins = self.take(amount)?;
        paid.give((S::INDEX, taken_coins.amount))
    }
}

impl<S: Symbol> Wf for Coin<S> {
    open spec fn wf(&self) -> bool {
        true
    }
}

impl<S: Symbol> Balance<S, Amount> for Coin<S> {
    open spec fn balance_post(&self, r: Result<Amount>) -> bool {
        r == Ok::<Amount, Error>(self.amount)
    }

    fn balance(&self) -> (r: Result<Amount>) {
        Ok(self.amount)
    }
}

impl<S: Symbol> Balance<S, Decimal> for Coin<S> {
    open spec fn balance_post(&self, r: Result<Decimal>) -> bool {
        r == Ok::<Decimal, Error>(Decimal::from_u64_spec(self.amount.value))
    }

    fn balance(&self) -> (r: Result<Decimal>) {
        Ok(Decimal::from_amount(self.amount))
    }
}

impl<S: Symbol> Take<S, Amount> for Coin<S> {
    type Value = Coin<S>;

    /// Taking more than the coin holds fails with "Insufficient funds" and
    /// leaves it unchanged; otherwise the amount moves into a new coin.
    open spec fn take_post(self, amount: Amount, new: Self, r: Result<Coin<S>>) -> bool {
        if amount.value > self.amount.value {
            new == self && fails_with(r, "Insufficient funds"@)
        } else {
            &&& new.amount.value == self.amount.value - amount.value
            &&& r matches Ok(c) && c.amount == amount
        }
    }

    fn take(&mut self, amount: Amount) -> (r: Result<Coin<S>>) {
        if self.amount.lt(&amount) {
            return Err(coins_error("Insufficient funds"));
        }
        self.amount = self.amount.checked_sub(amount)?;

        Ok(Coin::mint(amount))
    }
}

impl<S: Symbol> Give<Coin<S>> for Coin<S> {
    /// The amounts add up; an overflow fails with [Error::Overflow] and leaves
    /// the coin unchanged.
    open spec fn give_post(self, value: Coin<S>, new: Self, r: Result<()>) -> bool {
        if self.amount.value + value.amount.value > u64::MAX {
            new == self && r == Err::<(), Error>(Error::Overflow)
        } else {
            new.amount.value == self.amount.value + value.amount.value && r == Ok::<(), Error>(())
        }
    }

    fn give(&mut self, value: Coin<S>) -> (r: Result<()>) {
        self.amount = self.amount.checked_add(value.amount)?;

        Ok(())
    }
}

impl<S: Symbol> From<Amount> for Coin<S> {
    fn from(amount: Amount) -> (r: Self) {
        Self::mint(amount)
    }
}

impl<S: Symbol> vstd::std_specs::convert::FromSpecImpl<Amount> for Coin<S> {
    open spec fn obeys_from_spec() -> bool {
        true
    }

    open spec fn from_spec(amount: Amount) -> Self {
        Coin { amount, symbol: PhantomData }
    }
}

impl<S: Symbol> From<u64> for Coin<S> {
    fn from(amount: u64) -> (r: Self) {
        Self::mint(Amount::new(amount))
    }
}

impl<S: Symbol> vstd::std_specs::convert::FromSpecImpl<u64> for Coin<S> {
    open spec fn obeys_from_spec() -> bool {
        true
    }

    open spec fn from_spec(amount: u64) -> Self {
        Coin { amount: Amount { value: amount }, symbol: PhantomData }
    }
}

/// Taking an amount from one coin and giving it to another keeps the sum of
/// their amounts, and both steps succeed when the source holds the amount and
/// the destination has room for it.
pub proof fn lemma_coin_take_give_conserves<S: Symbol>(
    from: Coin<S>,
    to: Coin<S>,
    amount: Amount,
    from2: Coin<S>,
    taken: Result<Coin<S>>,
    to2: Coin<S>,
    given: Result<()>,
)
    requires
        from.take_post(amount, from2, taken),
        taken matches Ok(c) ==> to.give_post(c, to2, given),
        amount.value <= from.amount.value,
        to.amount.value + amount.value <= u64::MAX,
    ensures
        taken is Ok,
        given is Ok,
        from2.amount.value + to2.amount.value == from.amount.value + to.amount.value,
{
}

/// Giving a coin and then taking the same amount back restores the amount.
pub proof fn lemma_coin_give_take_roundtrip<S: Symbol>(
    c: Coin<S>,
    value: Coin<S>,
    c2: Coin<S>,
    given: Result<()>,
    c3: Coin<S>,
    taken: Result<Coin<S>>,
)
    requires
        c.give_post(value, c2, given),
        c2.take_post(value.amount, c3, taken),
        c.amount.value + value.amount.value <= u64::MAX,
    ensures
        given is Ok,
        taken matches Ok(t) && t.amount == value.amount,
        c3.amount == c.amount,
{
}

} // verus!
