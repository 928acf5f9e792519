//! Basic single-asset account system.
use vstd::prelude::*;

use super::traits::{Balance, Give, Symbol, Take, Wf};
use super::{Address, Amount, Coin};
use crate::collections::ordered_map::{has_key, OrderedMap};
use crate::error::{coins_error, fails_with, Error, Result};
use core::marker::PhantomData;

verus! {

/// Manages accounts and their coin balances for a specific symbol.
#[derive(Debug)]
pub struct Accounts<S: Symbol> {
    /// Whether transfers are allowed.
    pub transfers_allowed: bool,
    /// Addresses that are exempt from transfer restrictions.
    pub transfer_exceptions: OrderedMap<Address, ()>,
    /// Mapping of addresses to their coin balances.
    pub accounts: OrderedMap<Address, Coin<S>>,
}

/// The signer of an account action, or the error for an unsigned one.
pub fn account_signer(signer: Option<Address>) -> (r: Result<Address>)
    ensures
        signer matches Some(s) ==> r == Ok::<Address, Error>(s),
        signer is None ==> fails_with(r, "Unauthorized account action"@),
{
    match signer {
        Some(s) => Ok(s),
        None => Err(coins_error("Unauthorized account action")),
    }
}

impl<S: Symbol> Accounts<S> {
    /// The maps are well-formed.
    pub open spec fn wf(&self) -> bool {
        &&& self.transfer_exceptions.wf()
        &&& self.accounts.wf()
    }

    /// The balance of an address: its coins, or zero without an account.
    pub open spec fn balance_of(&self, address: Address) -> u64 {
        match self.accounts.spec_get(address) {
            Some(c) => c.amount.value,
            None => 0,
        }
    }

    /// Whether an account exists for an address.
    pub open spec fn has_account(&self, address: Address) -> bool {
        self.accounts.spec_get(address) is Some
    }

    /// No accounts, transfers disallowed.
    pub fn new() -> (r: Self)
        ensures
            r.wf(),
            !r.transfers_allowed,
            forall|a: Address| r.balance_of(a) == 0 && !r.has_account(a),
    {
        Accounts {
            transfers_allowed: false,
            transfer_exceptions: OrderedMap::new(),
            accounts: OrderedMap::new(),
        }
    }

    /// Returns the balance of the specified address.
    pub fn balance(&self, address: Address) -> (r: Result<Amount>)
        requires
            self.wf(),
        ensures
            r matches Ok(a) && a.value == self.balance_of(address),
    {
        match self.accounts.get(&address) {
            Some(coin) => Ok(coin.amount),
            None => Ok(Amount::new(0)),
        }
    }

    /// Checks if an account exists for the given address.
    pub fn account_exists(&self, address: Address) -> (r: Result<bool>)
        requires
            self.wf(),
        ensures
            r == Ok::<bool, Error>(self.has_account(address)),
    {
        Ok(self.accounts.get(&address).is_some())
    }

    /// Allows or disallows transfers for all accounts.
    pub fn allow_transfers(&mut self, enabled: bool)
        ensures
            final(self).transfers_allowed == enabled,
            final(self).transfer_exceptions == old(self).transfer_exceptions,
            final(self).accounts == old(self).accounts,
    {
        self.transfers_allowed = enabled;
    }

    /// Adds an address to the transfer exceptions, allowing it to transfer
    /// funds even when transfers are generally disabled.
    pub fn add_transfer_exception(&mut self, address: Address) -> (r: Result<()>)
        requires
            old(self).wf(),
        ensures
            r is Ok,
            final(self).wf(),
            has_key(final(self).transfer_exceptions.entries@, address),
            forall|a: Address| a != address ==> #[trigger] has_key(final(self).transfer_exceptions.entries@, a)
                == has_key(old(self).transfer_exceptions.entries@, a),
            final(self).accounts == old(self).accounts,
            final(self).transfers_allowed == old(self).transfers_allowed,
    {
        self.transfer_exceptions.insert(address, ());
        Ok(())
    }

    /// Deposits coins into the specified address's account (creating it).
    pub fn deposit(&mut self, address: Address, coins: Coin<S>) -> (r: Result<()>)
        requires
            old(self).wf(),
        ensures
            final(self).wf(),
            final(self).has_account(address),
            old(self).balance_of(address) + coins.amount.value > u64::MAX ==> r == Err::<(), Error>(
                Error::Overflow,
            ) && final(self).balance_of(address) == old(self).balance_of(address),
            old(self).balance_of(address) + coins.amount.value <= u64::MAX ==> r is Ok && final(self).balance_of(address) == old(self).balance_of(address) + coins.amount.value,
            forall|a: Address| a != address ==> #[trigger] final(self).accounts.spec_get(a) == old(self).accounts.spec_get(a),
            final(self).transfer_exceptions == old(self).transfer_exceptions,
            final(self).transfers_allowed == old(self).transfers_allowed,
    {
        let mut account = match self.accounts.remove(&address) {
            Some(c) => c,
            None => Coin::new(),
        };
        let r = account.give(coins);
        self.accounts.insert(address, account);
        r
    }

    /// Withdraws coins from the specified address's account (creating it).
    pub fn withdraw(&mut self, address: Address, amount: Amount) -> (r: Result<Coin<S>>)
        requires
            old(self).wf(),
        ensures
            final(self).wf(),
            final(self).has_account(address),
            amount.value > old(self).balance_of(address) ==> fails_with(r, "Insufficient funds"@)
                && final(self).balance_of(address) == old(self).balance_of(address),
            amount.value <= old(self).balance_of(address) ==> (r matches Ok(c) && c.amount == amount)
                && final(self).balance_of(address) == old(self).balance_of(address) - amount.value,
            forall|a: Address| a != address ==> #[trigger] final(self).accounts.spec_get(a) == old(self).accounts.spec_get(a),
            final(self).transfer_exceptions == old(self).transfer_exceptions,
            final(self).transfers_allowed == old(self).transfers_allowed,
    {
        let mut account = match self.accounts.remove(&address) {
            Some(c) => c,
            None => Coin::new(),
        };
        let r = account.take(amount);
        self.accounts.insert(address, account);
        r
    }

    /// Takes coins from the signer's account, which must exist and hold the
    /// amount ("Insufficient funds" otherwise).
    fn take_own_coins(&mut self, signer: Address, amount: Amount) -> (r: Result<Coin<S>>)
        requires
            old(self).wf(),
        ensures
            final(self).wf(),
            final(self).transfer_exceptions == old(self).transfer_exceptions,
            final(self).transfers_allowed == old(self).transfers_allowed,
            (!old(self).has_account(signer) || amount.value > old(self).balance_of(signer)) ==> fails_with(
                r,
                "Insufficient funds"@,
            ) && final(self).accounts.spec_get(signer) == old(self).accounts.spec_get(signer),
            (old(self).has_account(signer) && amount.value <= old(self).balance_of(signer)) ==> (r matches Ok(
                c,
            ) && c.amount == amount) && final(self).has_account(signer) && final(self).balance_of(signer)
                == old(self).balance_of(signer) - amount.value,
            forall|a: Address| a != signer ==> #[trigger] final(self).accounts.spec_get(a) == old(self).accounts.spec_get(a),
    {
        let mut account = match self.accounts.remove(&signer) {
            Some(c) => c,
            None => {
                return Err(coins_error("Insufficient funds"));
            },
        };
        let r = account.take(amount);
        self.accounts.insert(signer, account);
        r
    }

    /// Transfers coins from the signer's account to the specified address.
    ///
    /// Refused for an unsigned call ("Unauthorized account action"), while
    /// transfers are disabled unless the signer is an exception ("Transfers
    /// are currently disabled"), and when the signer's account does not hold
    /// the amount ("Insufficient funds").
    pub fn transfer(&mut self, signer: Option<Address>, to: Address, amount: Amount) -> (r: Result<()>)
        requires
            old(self).wf(),
        ensures
            final(self).wf(),
            final(self).transfer_exceptions == old(self).transfer_exceptions,
            final(self).transfers_allowed == old(self).transfers_allowed,
            signer is None ==> fails_with(r, "Unauthorized account action"@) && *final(self) == *old(self),
            signer matches Some(s) ==> {
                let allowed = old(self).transfers_allowed || has_key(old(self).transfer_exceptions.entries@, s);
                &&& !allowed ==> fails_with(r, "Transfers are currently disabled"@) && *final(self)
                    == *old(self)
                &&& (allowed && (!old(self).has_account(s) || amount.value > old(self).balance_of(s)))
                    ==> fails_with(r, "Insufficient funds"@)
                &&& (allowed && old(self).has_account(s) && amount.value <= old(self).balance_of(s)) ==> {
                    &&& s != to ==> {
                        &&& final(self).balance_of(s) == old(self).balance_of(s) - amount.value
                        &&& old(self).balance_of(to) + amount.value <= u64::MAX ==> r is Ok
                            && final(self).balance_of(to) == old(self).balance_of(to) + amount.value
                        &&& old(self).balance_of(to) + amount.value > u64::MAX ==> r == Err::<(), Error>(Error::Overflow)
                    }
                    &&& s == to ==> r is Ok && final(self).balance_of(s) == old(self).balance_of(s)
                    &&& forall|a: Address| a != s && a != to ==> #[trigger] final(self).accounts.spec_get(a)
                        == old(self).accounts.spec_get(a)
                }
            },
    {
        let signer = account_signer(signer)?;
        if !self.transfers_allowed && !self.transfer_exceptions.contains_key(&signer) {
            return Err(coins_error("Transfers are currently disabled"));
        }
        let taken_coins = self.take_own_coins(signer, amount)?;
        self.deposit(to, taken_coins)
    }

    /// Takes coins from the signer's account and gives them to the call's
    /// payment.
    pub fn take_as_funding<P: Give<(u8, Amount)>>(&mut self, signer: Option<Address>, amount: Amount, paid: &mut P) -> (r:
        Result<()>)
        requires
            old(self).wf(),
            old(paid).wf(),
        ensures
            final(self).wf(),
            final(paid).wf(),
            signer is None ==> fails_with(r, "Unauthorized account action"@) && *final(self) == *old(self)
                && *final(paid) == *old(paid),
            signer matches Some(s) ==> {
                &&& (!old(self).has_account(s) || amount.value > old(self).balance_of(s)) ==> fails_with(
                    r,
                    "Insufficient funds"@,
                ) && *final(paid) == *old(paid)
                &&& (old(self).has_account(s) && amount.value <= old(self).balance_of(s)) ==> {
                    &&& final(self).balance_of(s) == old(self).balance_of(s) - amount.value
                    &&& old(paid).give_post((S::INDEX, amount), *final(paid), r)
                }
            },
    {
        let signer = account_signer(signer)?;
        let taken_coins = self.take_own_coins(signer, amount)?;
        paid.give((S::INDEX, taken_coins.amount))
    }

    /// What crediting coins taken from a payment to the signer's account
    /// gives, once `taken` is what the payment gave up: the payment's failure;
    /// a refusal without a signer; else the deposit of the coins, which fails
    /// with an overflow of the balance. Nothing else changes.
    pub open spec fn credited(&self, new: Self, signer: Option<Address>, taken: Result<Coin<S>>, r: Result<()>) -> bool {
        match taken {
            Err(e) => r == Err::<(), Error>(e) && new == *self,
            Ok(c) => match signer {
                None => fails_with(r, "Unauthorized account action"@) && new == *self,
                Some(s) => {
                    &&& new.has_account(s)
                    &&& if self.balance_of(s) + c.amount.value > u64::MAX {
                        r == Err::<(), Error>(Error::Overflow) && new.balance_of(s) == self.balance_of(s)
                    } else {
                        r is Ok && new.balance_of(s) == self.balance_of(s) + c.amount.value
                    }
                    &&& forall|a: Address| a != s ==> #[trigger] new.accounts.spec_get(a) == self.accounts.spec_get(a)
                    &&& new.transfer_exceptions == self.transfer_exceptions
                    &&& new.transfers_allowed == self.transfers_allowed
                },
            },
        }
    }

    /// Gives coins taken from the call's payment to the signer's account.
    pub fn give_from_funding<P: Take<S, Amount, Value = Coin<S>>>(&mut self, signer: Option<Address>, amount: Amount, paid: &mut P) -> (r:
        Result<()>)
        requires
            old(self).wf(),
            old(paid).wf(),
        ensures
            final(self).wf(),
            final(paid).wf(),
            exists|taken: Result<Coin<S>>|
                #[trigger] old(paid).take_post(amount, *final(paid), taken) && old(self).credited(
                    *final(self),
                    signer,
                    taken,
                    r,
                ),
    {
        let taken = paid.take(amount);
        let ghost t = taken;
        let taken_coins = match taken {
            Ok(c) => c,
            Err(e) => {
                assert(old(self).credited(*self, signer, t, Err(e)));
                return Err(e);
            },
        };
        let signer = match account_signer(signer) {
            Ok(s) => s,
            Err(e) => {
                assert(old(self).credited(*self, None, t, Err(e)));
                return Err(e);
            },
        };
        let r = self.deposit(signer, taken_coins);
        assert(old(self).credited(*self, Some(signer), t, r));
        r
    }

    /// Gives all the coins of this symbol in the call's payment to the
    /// signer's account: the payment's balance is taken from it.
    pub fn give_from_funding_all<P: Take<S, Amount, Value = Coin<S>> + Balance<S, Amount>>(&mut self, signer: Option<Address>, paid: &mut P) -> (r:
        Result<()>)
        requires
            old(self).wf(),
            old(paid).wf(),
        ensures
            final(self).wf(),
            final(paid).wf(),
            exists|b: Result<Amount>|
                #[trigger] old(paid).balance_post(b) && match b {
                    Err(e) => r == Err::<(), Error>(e) && *final(self) == *old(self) && *final(paid) == *old(paid),
                    Ok(amount) => exists|taken: Result<Coin<S>>|
                        #[trigger] old(paid).take_post(amount, *final(paid), taken) && old(self).credited(
                            *final(self),
                            signer,
                            taken,
                            r,
                        ),
                },
    {
        let balance = match paid.balance() {
            Ok(b) => b,
            Err(e) => {
                return Err(e);
            },
        };
        let taken = paid.take(balance);
        let ghost t = taken;
        let taken_coins = match taken {
            Ok(c) => c,
            Err(e) => {
                assert(old(self).credited(*self, signer, t, Err(e)));
                return Err(e);
            },
        };
        let signer = match account_signer(signer) {
            Ok(s) => s,
            Err(e) => {
                assert(old(self).credited(*self, None, t, Err(e)));
                return Err(e);
            },
        };
        let r = self.deposit(signer, taken_coins);
        assert(old(self).credited(*self, Some(signer), t, r));
        r
    }
}

} // verus!
