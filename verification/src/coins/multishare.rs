//! Decimal amounts of multiple asset types.
use vstd::prelude::*;

use super::ops::{add_spec, sub_spec};
use super::traits::{Balance, Give, Symbol, Take, Wf};
use super::{Amount, Coin, Decimal};
use crate::collections::ordered_map::{value_of, OrderedMap};
use crate::error::{coins_error, fails_with, Error, Result};

verus! {

/// Represents multiple shares of different denoms.
#[derive(Debug)]
pub struct MultiShare {
    /// A map of denom indices to their corresponding decimal shares
    pub shares: OrderedMap<u8, Decimal>,
}

impl Wf for MultiShare {
    open spec fn wf(&self) -> bool {
        &&& self.shares.wf()
        &&& forall|i: int|
            0 <= i < self.shares.entries@.len() ==> (#[trigger] self.shares.entries@[i]).1.wf()
    }
}

impl MultiShare {
    /// A multishare with no shares.
    pub fn new() -> (r: Self)
        ensures
            r.wf(),
            r.shares.entries@.len() == 0,
    {
        MultiShare { shares: OrderedMap::new() }
    }

    /// The shares held of a denom: its entry, or zero.
    pub open spec fn share_of(&self, denom: u8) -> Decimal {
        match value_of(self.shares.entries@, denom) {
            Some(d) => d,
            None => Decimal::zero_spec(),
        }
    }

    /// The shares held of a denom, or zero.
    fn get_or_zero(&self, denom: u8) -> (r: Decimal)
        requires
            self.wf(),
        ensures
            r == self.share_of(denom),
            r.wf(),
    {
        match self.shares.find(&denom) {
            Some(i) => self.shares.entries[i].1,
            None => Decimal::zero(),
        }
    }

    /// Stores the shares of a denom.
    fn set_share(&mut self, denom: u8, d: Decimal)
        requires
            old(self).wf(),
            d.wf(),
        ensures
            final(self).wf(),
            final(self).share_of(denom) == d,
            forall|k: u8| k != denom ==> #[trigger] final(self).share_of(k) == old(self).share_of(k),
    {
        self.shares.insert(denom, d);
        proof {
            assert forall|k: u8| k != denom implies #[trigger] self.share_of(k) == old(self).share_of(k) by {
                assert(self.shares.spec_get(k) == old(self).shares.spec_get(k));
            }
            assert(self.shares.spec_get(denom) == Some(d));
            assert forall|i: int| 0 <= i < self.shares.entries@.len() implies (
            #[trigger] self.shares.entries@[i]).1.wf() by {
                let k = self.shares.entries@[i].0;
                self.shares.lemma_value_at(i);
                if k != denom {
                    assert(crate::collections::ordered_map::has_key(self.shares.entries@, k));
                    let j = choose|j: int| 0 <= j < old(self).shares.entries@.len() && (#[trigger] old(self).shares.entries@[j]).0 == k;
                    old(self).shares.lemma_value_at(j);
                }
            }
        }
    }

    /// Returns a vector of `(denom, Amount)` pairs for all shares.
    pub fn amounts(&self) -> (r: Result<Vec<(u8, Amount)>>)
        requires
            self.wf(),
        ensures
            r is Ok <==> forall|i: int|
                0 <= i < self.shares.entries@.len() ==> (#[trigger] self.shares.entries@[i]).1.amount_spec() is Some,
            r matches Ok(v) ==> {
                &&& v@.len() == self.shares.entries@.len()
                &&& forall|i: int|
                    0 <= i < v@.len() ==> #[trigger] v@[i] == (
                        self.shares.entries@[i].0,
                        self.shares.entries@[i].1.amount_spec()->0,
                    )
            },
    {
        let mut out: Vec<(u8, Amount)> = Vec::new();
        let mut i: usize = 0;
        while i < self.shares.entries.len()
            invariant
                self.wf(),
                i <= self.shares.entries@.len(),
                out@.len() == i,
                forall|j: int|
                    0 <= j < i ==> (#[trigger] self.shares.entries@[j]).1.amount_spec() is Some,
                forall|j: int|
                    0 <= j < i ==> #[trigger] out@[j] == (
                        self.shares.entries@[j].0,
                        self.shares.entries@[j].1.amount_spec()->0,
                    ),
            decreases self.shares.entries@.len() - i,
        {
            let (denom, shares) = self.shares.entries[i];
            assert(self.shares.entries@[i as int].1.wf());
            let amount = shares.amount()?;
            out.push((denom, amount));
            i = i + 1;
        }
        Ok(out)
    }

    /// Deducts the specified amount from the share of the given denom.
    /// Returns an error if the balance is insufficient.
    pub fn deduct(&mut self, amount: Amount, denom: u8) -> (r: Result<()>)
        requires
            old(self).wf(),
        ensures
            final(self).wf(),
            old(self).deduct_post(amount, denom, *final(self), r),
    {
        let entry = self.get_or_zero(denom);
        if entry.lt_amount(amount) {
            return Err(coins_error("Insufficient balance"));
        }
        let d = entry.sub_amount(amount)?;
        self.set_share(denom, d);

        Ok(())
    }

    /// Holds when `new` and `r` are the multishare and result of
    /// [MultiShare::deduct]: a share below the amount fails with "Insufficient
    /// balance", else the amount is subtracted from that denom's share; other
    /// denoms are unchanged, and a failure changes nothing.
    pub open spec fn deduct_post(self, amount: Amount, denom: u8, new: Self, r: Result<()>) -> bool {
        let a = Decimal::from_u64_spec(amount.value);
        if self.share_of(denom).less_than(a) {
            new == self && fails_with(r, "Insufficient balance"@)
        } else {
            match sub_spec(self.share_of(denom), a) {
                Ok(d) => {
                    &&& r == Ok::<(), Error>(())
                    &&& new.share_of(denom) == d
                    &&& forall|k: u8| k != denom ==> #[trigger] new.share_of(k) == self.share_of(k)
                },
                Err(e) => new == self && r == Err::<(), Error>(e),
            }
        }
    }

    /// Adds an amount to the share of a denom.
    fn add_to(&mut self, denom: u8, amount: Amount) -> (r: Result<()>)
        requires
            old(self).wf(),
        ensures
            final(self).wf(),
            old(self).add_post(denom, amount, *final(self), r),
    {
        let entry = self.get_or_zero(denom);
        let d = entry.add_amount(amount)?;
        self.set_share(denom, d);
        Ok(())
    }

    /// Holds when `new` and `r` follow adding `amount` to the share of
    /// `denom`; other denoms are unchanged and a failure changes nothing.
    pub open spec fn add_post(self, denom: u8, amount: Amount, new: Self, r: Result<()>) -> bool {
        match add_spec(Decimal::from_u64_spec(amount.value), self.share_of(denom)) {
            Ok(d) => {
                &&& r == Ok::<(), Error>(())
                &&& new.share_of(denom) == d
                &&& forall|k: u8| k != denom ==> #[trigger] new.share_of(k) == self.share_of(k)
            },
            Err(e) => new == self && r == Err::<(), Error>(e),
        }
    }
}

impl<S: Symbol> Balance<S, Amount> for MultiShare {
    open spec fn balance_post(&self, r: Result<Amount>) -> bool {
        self.share_of(S::INDEX).amount_post(r)
    }

    fn balance(&self) -> (r: Result<Amount>) {
        self.get_or_zero(S::INDEX).amount()
    }
}

impl<S: Symbol> Balance<S, Decimal> for MultiShare {
    open spec fn balance_post(&self, r: Result<Decimal>) -> bool {
        r == Ok::<Decimal, Error>(self.share_of(S::INDEX))
    }

    fn balance(&self) -> (r: Result<Decimal>) {
        Ok(self.get_or_zero(S::INDEX))
    }
}

impl<S: Symbol> Take<S, Amount> for MultiShare {
    type Value = Coin<S>;

    /// Deducts the amount from the symbol's share and mints it as a coin.
    open spec fn take_post(self, amount: Amount, new: Self, r: Result<Coin<S>>) -> bool {
        exists|d: Result<()>|
            {
                &&& #[trigger] self.deduct_post(amount, S::INDEX, new, d)
                &&& d is Ok ==> (r matches Ok(c) && c.amount == amount)
                &&& d matches Err(e) ==> r == Err::<Coin<S>, Error>(e)
            }
    }

    fn take(&mut self, amount: Amount) -> (r: Result<Coin<S>>) {
        let d = self.deduct(amount, S::INDEX);
        match d {
            Ok(()) => Ok(S::mint(amount)),
            Err(e) => Err(e),
        }
    }
}

impl<S: Symbol> Give<Coin<S>> for MultiShare {
    open spec fn give_post(self, coin: Coin<S>, new: Self, r: Result<()>) -> bool {
        self.add_post(S::INDEX, coin.amount, new, r)
    }

    fn give(&mut self, coin: Coin<S>) -> (r: Result<()>) {
        self.add_to(S::INDEX, coin.amount)
    }
}

impl Give<(u8, Amount)> for MultiShare {
    open spec fn give_post(self, coin: (u8, Amount), new: Self, r: Result<()>) -> bool {
        self.add_post(coin.0, coin.1, new, r)
    }

    fn give(&mut self, coin: (u8, Amount)) -> (r: Result<()>) {
        self.add_to(coin.0, coin.1)
    }
}

} // verus!
