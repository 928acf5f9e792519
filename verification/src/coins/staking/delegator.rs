//! A delegator's stake with one validator.
use vstd::prelude::*;

use crate::coins::ops::{add_spec, mul_spec, sub_spec};
use crate::coins::pool::PoolValue;
use crate::coins::traits::{Balance, Give, Symbol, Take, Wf};
use crate::coins::{Address, Amount, Coin, Decimal, MultiShare, Share};
use crate::collections::Deque;
use crate::error::{coins_error, fails_with, Error, Result};

verus! {

/// Default unbonding period length in seconds (two weeks).
pub const UNBONDING_SECONDS: u64 = 1209600;

/// `start_seconds` is at least [UNBONDING_SECONDS] before `now`.
pub open spec fn matured(now: i64, start_seconds: i64) -> bool {
    now - start_seconds >= UNBONDING_SECONDS
}

/// Whether an entry that started at `start_seconds` has matured at `now`.
pub fn is_matured(now: i64, start_seconds: i64) -> (r: bool)
    ensures
        r == matured(now, start_seconds),
{
    (now as i128) - (start_seconds as i128) >= UNBONDING_SECONDS as i128
}

/// Unbonding entry of staked to liquid coins.
#[derive(Debug)]
pub struct Unbond<S: Symbol> {
    /// The funds being unbonded.
    pub coins: Share<S>,
    /// The time (in unix seconds) when the unbonding started.
    pub start_seconds: i64,
}

/// Redelegation entry of staked coins from one validator to another.
#[derive(Clone, Copy, Debug)]
pub struct Redelegation {
    /// The amount of the staking token being redelegated.
    pub amount: Amount,
    /// The validator address to which (or from which) the staking token is
    /// being redelegated.
    pub address: Address,
    /// The time (in unix seconds) when the redelegation started.
    pub start_seconds: i64,
}

/// A single delegator entry within a validator, aka a Delegator Validator Pair
/// (DVP).
#[derive(Debug)]
pub struct Delegator<S: Symbol> {
    /// Claimable staking rewards, which may include multiple denoms.
    pub liquid: MultiShare,
    /// Amount of staking token staked by the delegator.
    pub staked: Share<S>,
    /// Queue of unbonds for this DVP.
    pub unbonding: Deque<Unbond<S>>,
    /// Queue of outgoing redelegations from this DVP.
    pub redelegations_out: Deque<Redelegation>,
    /// Queue of incoming redelegations to this DVP.
    pub redelegations_in: Deque<Redelegation>,
}

/// Information about a single unbond of the staking token.
#[derive(Debug, PartialEq, Eq, Structural)]
pub struct UnbondInfo {
    /// The time (in unix seconds) when the unbonding started.
    pub start_seconds: i64,
    /// Amount of the staking token being unbonded.
    pub amount: Amount,
}

/// Summary of a delegator for a single DVP.
#[derive(Debug)]
pub struct DelegationInfo {
    /// Pending unbonds.
    pub unbonding: Vec<UnbondInfo>,
    /// Total amount staked.
    pub staked: Amount,
    /// Claimable staking rewards, in (denom, amount) pairs.
    pub liquid: Vec<(u8, Amount)>,
}

/// `info` reports the liquid balance of `d`: each denom it holds, with the
/// amount of its share.
pub open spec fn info_describes<S: Symbol>(info: DelegationInfo, d: Delegator<S>) -> bool {
    &&& info.liquid@.len() == d.liquid.shares.entries@.len()
    &&& forall|i: int|
        0 <= i < info.liquid@.len() ==> #[trigger] info.liquid@[i] == (
            d.liquid.shares.entries@[i].0,
            d.liquid.shares.entries@[i].1.amount_spec()->0,
        )
}

/// The shares left after taking `amount` from `shares`, as [Share]'s `take`
/// computes them: `None` when the shares are worth less than the amount, else
/// their difference.
pub open spec fn take_shares(shares: Decimal, amount: Amount) -> Option<Result<Decimal>> {
    if shares.less_than(Decimal::from_u64_spec(amount.value)) {
        None
    } else {
        Some(sub_spec(shares, Decimal::from_u64_spec(amount.value)))
    }
}

impl<S: Symbol> Wf for Delegator<S> {
    open spec fn wf(&self) -> bool {
        &&& self.liquid.wf()
        &&& self.staked.wf()
        &&& self.unbonding.wf()
        &&& self.redelegations_out.wf()
        &&& self.redelegations_in.wf()
        &&& forall|i: int| 0 <= i < self.unbonding@.len() ==> (#[trigger] self.unbonding@[i]).coins.wf()
    }
}

impl<S: Symbol> Delegator<S> {
    /// A delegator with nothing staked, liquid or queued.
    pub fn new() -> (r: Self)
        ensures
            r.wf(),
            r.staked.shares == Decimal::zero_spec(),
            r.liquid.shares.entries@.len() == 0,
            r.unbonding@.len() == 0,
            r.redelegations_out@.len() == 0,
            r.redelegations_in@.len() == 0,
    {
        Delegator {
            liquid: MultiShare::new(),
            staked: Share::new(),
            unbonding: Deque::new(),
            redelegations_out: Deque::new(),
            redelegations_in: Deque::new(),
        }
    }

    /// Add staked coins to this delegator.
    pub fn add_stake(&mut self, coins: Coin<S>) -> (r: Result<()>)
        requires
            old(self).wf(),
        ensures
            final(self).wf(),
            old(self).staked.give_post(coins, final(self).staked, r),
            final(self).liquid == old(self).liquid,
            final(self).unbonding == old(self).unbonding,
            final(self).redelegations_out == old(self).redelegations_out,
            final(self).redelegations_in == old(self).redelegations_in,
    {
        self.staked.give(coins)
    }

    /// Deduct liquid coins of a denom from this delegator.
    pub fn deduct(&mut self, amount: Amount, denom: u8) -> (r: Result<()>)
        requires
            old(self).wf(),
        ensures
            final(self).wf(),
            old(self).liquid.deduct_post(amount, denom, final(self).liquid, r),
            final(self).staked == old(self).staked,
            final(self).unbonding == old(self).unbonding,
            final(self).redelegations_out == old(self).redelegations_out,
            final(self).redelegations_in == old(self).redelegations_in,
    {
        self.liquid.deduct(amount, denom)
    }

    /// Begin an unbond. If no start time is provided, the unbonded coins will
    /// be liquid immediately.
    ///
    /// The amount is taken from the stake ("Insufficient balance" when the
    /// stake is worth less); with a start time it is queued as an unbond,
    /// without one it is given to the liquid balance.
    pub fn unbond(&mut self, amount: Amount, start_seconds: Option<i64>) -> (r: Result<()>)
        requires
            old(self).wf(),
            old(self).unbonding.meta.tail < u64::MAX,
        ensures
            final(self).wf(),
            final(self).redelegations_out == old(self).redelegations_out,
            final(self).redelegations_in == old(self).redelegations_in,
            take_shares(old(self).staked.shares, amount) is None ==> {
                &&& fails_with(r, "Insufficient balance"@)
                &&& *final(self) == *old(self)
            },
            take_shares(old(self).staked.shares, amount) matches Some(Err(e)) ==> {
                &&& r == Err::<(), Error>(e)
                &&& *final(self) == *old(self)
            },
            take_shares(old(self).staked.shares, amount) matches Some(Ok(d)) ==> {
                &&& final(self).staked.shares == d
                &&& match start_seconds {
                    Some(start) => {
                        &&& r is Ok
                        &&& final(self).liquid == old(self).liquid
                        &&& final(self).unbonding@ == old(self).unbonding@.push(
                            Unbond {
                                coins: Share {
                                    shares: Decimal::from_u64_spec(amount.value),
                                    symbol: core::marker::PhantomData,
                                },
                                start_seconds: start,
                            },
                        )
                    },
                    None => {
                        &&& old(self).liquid.add_post(S::INDEX, amount, final(self).liquid, r)
                        &&& final(self).unbonding == old(self).unbonding
                    },
                }
            },
    {
        let coin = self.staked.take(amount)?;
        let coins: Share<S> = Share::from(coin);
        match start_seconds {
            Some(start_seconds) => {
                let ghost old_unbonding = self.unbonding@;
                let unbond = Unbond { coins, start_seconds };
                let r = self.unbonding.push_back(unbond);
                proof {
                    assert forall|i: int| 0 <= i < self.unbonding@.len() implies (
                    #[trigger] self.unbonding@[i]).coins.wf() by {
                        if i < old_unbonding.len() {
                            assert(self.unbonding@[i] == old_unbonding[i]);
                        }
                    }
                }
                r
            },
            None => self.liquid.give(S::mint(amount)),
        }
    }

    /// Initialize a redelegation away from this DVP.
    ///
    /// Refused while the DVP has inbound redelegations. The amount is taken
    /// from the stake and returned as coins; with a start time, the
    /// redelegation is queued as outbound.
    pub fn redelegate_out(&mut self, dst_val_address: Address, amount: Amount, start_seconds: Option<
        i64,
    >) -> (r: Result<Coin<S>>)
        requires
            old(self).wf(),
            old(self).redelegations_out.meta.tail < u64::MAX,
        ensures
            final(self).wf(),
            final(self).liquid == old(self).liquid,
            final(self).unbonding == old(self).unbonding,
            final(self).redelegations_in == old(self).redelegations_in,
            old(self).redelegations_in@.len() > 0 ==> {
                &&& fails_with(r, "Cannot redelegate from validator with inbound redelegations"@)
                &&& *final(self) == *old(self)
            },
            old(self).redelegations_in@.len() == 0 ==> {
                &&& take_shares(old(self).staked.shares, amount) is None ==> {
                    &&& fails_with(r, "Insufficient balance"@)
                    &&& *final(self) == *old(self)
                }
                &&& take_shares(old(self).staked.shares, amount) matches Some(Err(e)) ==> {
                    &&& r == Err::<Coin<S>, Error>(e)
                    &&& *final(self) == *old(self)
                }
                &&& take_shares(old(self).staked.shares, amount) matches Some(Ok(d)) ==> {
                    &&& final(self).staked.shares == d
                    &&& r matches Ok(c) && c.amount == amount
                    &&& final(self).redelegations_out@ == match start_seconds {
                        Some(start) => old(self).redelegations_out@.push(
                            Redelegation { amount, address: dst_val_address, start_seconds: start },
                        ),
                        None => old(self).redelegations_out@,
                    }
                }
            },
    {
        if !self.redelegations_in.is_empty() {
            return Err(coins_error("Cannot redelegate from validator with inbound redelegations"));
        }
        let redelegated_coins = self.staked.take(amount)?;
        if let Some(start_seconds) = start_seconds {
            self.redelegations_out.push_back(
                Redelegation { amount, address: dst_val_address, start_seconds },
            )?;
        }
        Ok(redelegated_coins)
    }

    /// Initialize a redelegation to this DVP: with a start time it is queued
    /// as inbound, and the coins are added to the stake.
    pub fn redelegate_in(&mut self, src_val_address: Address, coins: Coin<S>, start_seconds: Option<
        i64,
    >) -> (r: Result<()>)
        requires
            old(self).wf(),
            old(self).redelegations_in.meta.tail < u64::MAX,
        ensures
            final(self).wf(),
            final(self).liquid == old(self).liquid,
            final(self).unbonding == old(self).unbonding,
            final(self).redelegations_out == old(self).redelegations_out,
            final(self).redelegations_in@ == match start_seconds {
                Some(start) => old(self).redelegations_in@.push(
                    Redelegation { amount: coins.amount, address: src_val_address, start_seconds: start },
                ),
                None => old(self).redelegations_in@,
            },
            old(self).staked.give_post(coins, final(self).staked, r),
    {
        if let Some(start_seconds) = start_seconds {
            self.redelegations_in.push_back(
                Redelegation { address: src_val_address, amount: coins.amount, start_seconds },
            )?;
        }
        self.add_stake(coins)
    }
}

impl<S: Symbol> Balance<S, Decimal> for Delegator<S> {
    /// A delegator's balance is its staked shares, which the validator's pool
    /// uses for voting power.
    open spec fn balance_post(&self, r: Result<Decimal>) -> bool {
        r == Ok::<Decimal, Error>(self.staked.shares)
    }

    fn balance(&self) -> (r: Result<Decimal>) {
        Ok(self.staked.shares)
    }
}

impl<S: Symbol> Give<(u8, Amount)> for Delegator<S> {
    /// Rewards go to the liquid balance.
    open spec fn give_post(self, coins: (u8, Amount), new: Self, r: Result<()>) -> bool {
        &&& self.liquid.add_post(coins.0, coins.1, new.liquid, r)
        &&& new.staked == self.staked
        &&& new.unbonding == self.unbonding
        &&& new.redelegations_out == self.redelegations_out
        &&& new.redelegations_in == self.redelegations_in
    }

    fn give(&mut self, coins: (u8, Amount)) -> (r: Result<()>) {
        self.liquid.give(coins)
    }
}

impl<S: Symbol> PoolValue<S> for Delegator<S> {
    /// Nothing staked.
    open spec fn is_fresh(&self) -> bool {
        self.staked.shares == Decimal::zero_spec() && self.unbonding@.len() == 0
    }

    fn empty() -> (r: Self) {
        Delegator::new()
    }

    proof fn lemma_balance_wf(v: Self, d: Decimal) {
    }
}

} // verus!

verus! {

/// The number of redelegations at the front of a queue that have matured at
/// `now`.
pub open spec fn matured_redelegations(q: Seq<Redelegation>, now: i64) -> nat
    decreases q.len(),
{
    if q.len() > 0 && matured(now, q[0].start_seconds) {
        1 + matured_redelegations(q.drop_first(), now)
    } else {
        0
    }
}

/// The liquid share of the staking token after the matured unbonds at the
/// front of `q` are paid into `d`, one after another; `None` when an unbond's
/// amount cannot be computed or a sum overflows.
pub open spec fn paid_out<S: Symbol>(d: Decimal, q: Seq<Unbond<S>>, now: i64) -> Option<Decimal>
    decreases q.len(),
{
    if q.len() > 0 && matured(now, q[0].start_seconds) {
        match q[0].coins.shares.amount_spec() {
            None => None,
            Some(a) => match add_spec(Decimal::from_u64_spec(a.value), d) {
                Ok(d2) => paid_out(d2, q.drop_first(), now),
                Err(_) => None,
            },
        }
    } else {
        Some(d)
    }
}

/// The number of unbonds at the front of a queue that have matured at `now`.
pub open spec fn matured_unbonds<S: Symbol>(q: Seq<Unbond<S>>, now: i64) -> nat
    decreases q.len(),
{
    if q.len() > 0 && matured(now, q[0].start_seconds) {
        1 + matured_unbonds(q.drop_first(), now)
    } else {
        0
    }
}


/// The unbonds counted as matured at `now` are exactly the leading ones that
/// started at least [UNBONDING_SECONDS] before `now`: each counted one did,
/// and the first one not counted did not.
pub proof fn lemma_matured_unbonds_are_old<S: Symbol>(q: Seq<Unbond<S>>, now: i64)
    ensures
        matured_unbonds(q, now) <= q.len(),
        forall|i: int| 0 <= i < matured_unbonds(q, now) ==> now - (#[trigger] q[i]).start_seconds >= UNBONDING_SECONDS,
        matured_unbonds(q, now) < q.len() ==> now - q[matured_unbonds(q, now) as int].start_seconds < UNBONDING_SECONDS,
    decreases q.len(),
{
    if q.len() > 0 && matured(now, q[0].start_seconds) {
        lemma_matured_unbonds_are_old(q.drop_first(), now);
        assert forall|i: int| 0 <= i < matured_unbonds(q, now) implies now - (#[trigger] q[i]).start_seconds
            >= UNBONDING_SECONDS by {
            if i > 0 {
                assert(q[i] == q.drop_first()[i - 1]);
            }
        }
        if matured_unbonds(q, now) < q.len() {
            assert(q[matured_unbonds(q, now) as int] == q.drop_first()[matured_unbonds(q.drop_first(), now) as int]);
        }
    }
}

/// The redelegations counted as matured at `now` are exactly the leading
/// ones that started at least [UNBONDING_SECONDS] before `now`.
pub proof fn lemma_matured_redelegations_are_old(q: Seq<Redelegation>, now: i64)
    ensures
        matured_redelegations(q, now) <= q.len(),
        forall|i: int| 0 <= i < matured_redelegations(q, now) ==> now - (#[trigger] q[i]).start_seconds >= UNBONDING_SECONDS,
        matured_redelegations(q, now) < q.len() ==> now - q[matured_redelegations(q, now) as int].start_seconds
            < UNBONDING_SECONDS,
    decreases q.len(),
{
    if q.len() > 0 && matured(now, q[0].start_seconds) {
        lemma_matured_redelegations_are_old(q.drop_first(), now);
        assert forall|i: int| 0 <= i < matured_redelegations(q, now) implies now - (#[trigger] q[i]).start_seconds
            >= UNBONDING_SECONDS by {
            if i > 0 {
                assert(q[i] == q.drop_first()[i - 1]);
            }
        }
        if matured_redelegations(q, now) < q.len() {
            assert(q[matured_redelegations(q, now) as int] == q.drop_first()[matured_redelegations(q.drop_first(), now) as int]);
        }
    }
}

/// `new` is `old` less a leading run of entries that started at least
/// [UNBONDING_SECONDS] before `now`, stopping at the first that did not.
pub open spec fn leaves_young_unbonds<S: Symbol>(old: Seq<Unbond<S>>, new: Seq<Unbond<S>>, now: i64) -> bool {
    exists|n: int|
        0 <= n <= old.len() && new == old.skip(n) && (forall|i: int| 0 <= i < n ==> now - (#[trigger] old[i]).start_seconds
            >= UNBONDING_SECONDS) && (n < old.len() ==> now - old[n].start_seconds < UNBONDING_SECONDS)
}

/// `new` is `old` less a leading run of redelegations that started at least
/// [UNBONDING_SECONDS] before `now`, stopping at the first that did not.
pub open spec fn leaves_young_redelegations(old: Seq<Redelegation>, new: Seq<Redelegation>, now: i64) -> bool {
    exists|n: int|
        0 <= n <= old.len() && new == old.skip(n) && (forall|i: int| 0 <= i < n ==> now - (#[trigger] old[i]).start_seconds
            >= UNBONDING_SECONDS) && (n < old.len() ==> now - old[n].start_seconds < UNBONDING_SECONDS)
}

impl<S: Symbol> Delegator<S> {
    /// Pops the matured redelegations at the front of a queue.
    fn pop_matured(queue: &mut Deque<Redelegation>, now: i64)
        requires
            old(queue).wf(),
        ensures
            final(queue).wf(),
            final(queue)@ == old(queue)@.skip(
                matured_redelegations(old(queue)@, now) as int,
            ),
    {
        let ghost q0 = queue@;
        let ghost mut popped: int = 0;
        loop
            invariant
                queue.wf(),
                0 <= popped <= q0.len(),
                queue@ == q0.skip(popped),
                matured_redelegations(q0, now) == popped + matured_redelegations(queue@, now),
            ensures
                queue.wf(),
                queue@ == q0.skip(popped),
                matured_redelegations(q0, now) == popped,
            decreases queue@.len(),
        {
            let front_start = match queue.front() {
                Some(r) => r.start_seconds,
                None => {
                    break ;
                },
            };
            if !is_matured(now, front_start) {
                break ;
            }
            let ghost before = queue@;
            let _ = queue.pop_front();
            proof {
                assert(queue@ =~= q0.skip(popped + 1));
                assert(before.drop_first() =~= queue@);
                popped = popped + 1;
            }
        }
    }

    /// Process matured redelegations with this DVP as their destination.
    pub fn process_redelegations_in(&mut self, now: i64) -> (r: Result<()>)
        requires
            old(self).wf(),
        ensures
            r is Ok,
            final(self).wf(),
            final(self).redelegations_in@ == old(self).redelegations_in@.skip(
                matured_redelegations(old(self).redelegations_in@, now) as int,
            ),
            leaves_young_redelegations(old(self).redelegations_in@, final(self).redelegations_in@, now),
            final(self).liquid == old(self).liquid,
            final(self).staked == old(self).staked,
            final(self).unbonding == old(self).unbonding,
            final(self).redelegations_out == old(self).redelegations_out,
    {
        Self::pop_matured(&mut self.redelegations_in, now);
        proof {
            lemma_matured_redelegations_are_old(old(self).redelegations_in@, now);
        }
        Ok(())
    }

    /// Process matured redelegations with this DVP as their source.
    pub fn process_redelegations_out(&mut self, now: i64) -> (r: Result<()>)
        requires
            old(self).wf(),
        ensures
            r is Ok,
            final(self).wf(),
            final(self).redelegations_out@ == old(self).redelegations_out@.skip(
                matured_redelegations(old(self).redelegations_out@, now) as int,
            ),
            leaves_young_redelegations(old(self).redelegations_out@, final(self).redelegations_out@, now),
            final(self).liquid == old(self).liquid,
            final(self).staked == old(self).staked,
            final(self).unbonding == old(self).unbonding,
            final(self).redelegations_in == old(self).redelegations_in,
    {
        Self::pop_matured(&mut self.redelegations_out, now);
        proof {
            lemma_matured_redelegations_are_old(old(self).redelegations_out@, now);
        }
        Ok(())
    }

    /// Process matured unbonds: each matured unbond at the front of the queue
    /// is removed and its amount given to the liquid balance.
    pub fn process_unbonds(&mut self, now: i64) -> (r: Result<()>)
        requires
            old(self).wf(),
        ensures
            final(self).wf(),
            final(self).staked == old(self).staked,
            final(self).redelegations_out == old(self).redelegations_out,
            final(self).redelegations_in == old(self).redelegations_in,
            paid_out(old(self).liquid.share_of(S::INDEX), old(self).unbonding@, now) matches Some(d)
                ==> {
                &&& r is Ok
                &&& final(self).unbonding@ == old(self).unbonding@.skip(
                    matured_unbonds(old(self).unbonding@, now) as int,
                )
                &&& final(self).liquid.share_of(S::INDEX) == d
                &&& forall|k: u8| k != S::INDEX ==> #[trigger] final(self).liquid.share_of(k) == old(
                    self,
                ).liquid.share_of(k)
            },
            paid_out(old(self).liquid.share_of(S::INDEX), old(self).unbonding@, now) is None ==> r is Err,
            r is Ok ==> leaves_young_unbonds(old(self).unbonding@, final(self).unbonding@, now),
    {
        let ghost q0 = self.unbonding@;
        let ghost l0 = self.liquid;
        let ghost mut popped: int = 0;
        loop
            invariant
                self.wf(),
                l0 == old(self).liquid,
                q0 == old(self).unbonding@,
                0 <= popped <= q0.len(),
                self.unbonding@ == q0.skip(popped),
                self.staked == old(self).staked,
                self.redelegations_out == old(self).redelegations_out,
                self.redelegations_in == old(self).redelegations_in,
                matured_unbonds(q0, now) == popped + matured_unbonds(self.unbonding@, now),
                paid_out(l0.share_of(S::INDEX), q0, now) == paid_out(
                    self.liquid.share_of(S::INDEX),
                    self.unbonding@,
                    now,
                ),
                forall|k: u8| k != S::INDEX ==> #[trigger] self.liquid.share_of(k) == l0.share_of(k),
            ensures
                self.wf(),
                self.unbonding@ == q0.skip(popped),
                self.staked == old(self).staked,
                self.redelegations_out == old(self).redelegations_out,
                self.redelegations_in == old(self).redelegations_in,
                matured_unbonds(q0, now) == popped,
                paid_out(l0.share_of(S::INDEX), q0, now) == Some(self.liquid.share_of(S::INDEX)),
                forall|k: u8| k != S::INDEX ==> #[trigger] self.liquid.share_of(k) == l0.share_of(k),
            decreases self.unbonding@.len(),
        {
            let front_start = match self.unbonding.front() {
                Some(u) => u.start_seconds,
                None => {
                    break ;
                },
            };
            if !is_matured(now, front_start) {
                break ;
            }
            let ghost before = self.unbonding@;
            let ghost d0 = self.liquid.share_of(S::INDEX);
            let popped_unbond = self.unbonding.pop_front();
            let unbond = match popped_unbond {
                Ok(Some(u)) => u,
                _ => {
                    return Err(coins_error("Failed to pop unbond"));
                },
            };
            proof {
                assert(before[0] == unbond);
                assert(before[0].coins.wf());
                assert(before.drop_first() =~= self.unbonding@);
                assert(self.unbonding@ =~= q0.skip(popped + 1));
                assert forall|i: int| 0 <= i < self.unbonding@.len() implies (
                #[trigger] self.unbonding@[i]).coins.wf() by {
                    assert(self.unbonding@[i] == before[i + 1]);
                }
                popped = popped + 1;
            }
            let amount = match unbond.coins.shares.amount() {
                Ok(a) => a,
                Err(e) => {
                    assert(paid_out(d0, before, now) is None);
                    assert(paid_out(l0.share_of(S::INDEX), q0, now) is None);
                    return Err(e);
                },
            };
            match self.liquid.give(S::mint(amount)) {
                Ok(()) => {},
                Err(e) => {
                    assert(paid_out(d0, before, now) is None);
                    assert(paid_out(l0.share_of(S::INDEX), q0, now) is None);
                    return Err(e);
                },
            }
            assert(paid_out(d0, before, now) == paid_out(
                self.liquid.share_of(S::INDEX),
                self.unbonding@,
                now,
            ));
        }
        proof {
            lemma_matured_unbonds_are_old(q0, now);
            assert(leaves_young_unbonds(q0, self.unbonding@, now));
        }
        Ok(())
    }

    /// Build a summary of the delegator's staking state: each pending unbond
    /// with its start time and amount, the liquid amounts per denom, and the
    /// staked amount.
    pub fn info(&self) -> (r: Result<DelegationInfo>)
        requires
            self.wf(),
        ensures
            r is Ok <==> {
                &&& forall|i: int|
                    0 <= i < self.unbonding@.len()
                        ==> (#[trigger] self.unbonding@[i]).coins.shares.amount_spec() is Some
                &&& forall|i: int|
                    0 <= i < self.liquid.shares.entries@.len()
                        ==> (#[trigger] self.liquid.shares.entries@[i]).1.amount_spec() is Some
                &&& self.staked.shares.amount_spec() is Some
            },
            r matches Ok(info) ==> {
                &&& info.unbonding@.len() == self.unbonding@.len()
                &&& forall|i: int|
                    0 <= i < info.unbonding@.len() ==> #[trigger] info.unbonding@[i] == (UnbondInfo {
                        start_seconds: self.unbonding@[i].start_seconds,
                        amount: self.unbonding@[i].coins.shares.amount_spec()->0,
                    })
                &&& info.liquid@.len() == self.liquid.shares.entries@.len()
                &&& forall|i: int|
                    0 <= i < info.liquid@.len() ==> #[trigger] info.liquid@[i] == (
                        self.liquid.shares.entries@[i].0,
                        self.liquid.shares.entries@[i].1.amount_spec()->0,
                    )
                &&& info.staked == self.staked.shares.amount_spec()->0
            },
    {
        let mut unbonds: Vec<UnbondInfo> = Vec::new();
        let n = self.unbonding.len();
        let mut i: u64 = 0;
        while i < n
            invariant
                self.wf(),
                n == self.unbonding@.len(),
                i <= n,
                unbonds@.len() == i,
                forall|j: int|
                    0 <= j < i ==> (#[trigger] self.unbonding@[j]).coins.shares.amount_spec() is Some,
                forall|j: int|
                    0 <= j < i ==> #[trigger] unbonds@[j] == (UnbondInfo {
                        start_seconds: self.unbonding@[j].start_seconds,
                        amount: self.unbonding@[j].coins.shares.amount_spec()->0,
                    }),
            decreases n - i,
        {
            let unbond = &self.unbonding.as_slice()[i as usize];
            assert(self.unbonding@[i as int].coins.wf());
            let amount = unbond.coins.amount()?;
            unbonds.push(UnbondInfo { start_seconds: unbond.start_seconds, amount });
            i = i + 1;
        }
        let liquid = self.liquid.amounts()?;
        let staked = self.staked.shares.amount()?;
        Ok(DelegationInfo { unbonding: unbonds, liquid, staked })
    }

    /// Slash the stake of this delegator by the given multiplier, and return
    /// any redelegations also subject to the slash.
    ///
    /// If the slash is due to a liveness fault, pending unbonds and outbound
    /// redelegations are not affected.
    pub fn slash(&mut self, multiplier: Decimal, liveness_fault: bool) -> (r: Result<
        Vec<Redelegation>,
    >)
        requires
            old(self).wf(),
            multiplier.wf(),
        ensures
            final(self).wf(),
            final(self).liquid == old(self).liquid,
            final(self).redelegations_out == old(self).redelegations_out,
            final(self).redelegations_in == old(self).redelegations_in,
            mul_spec(old(self).staked.shares, multiplier) matches Err(e) ==> {
                &&& r == Err::<Vec<Redelegation>, Error>(e)
                &&& *final(self) == *old(self)
            },
            mul_spec(old(self).staked.shares, multiplier) matches Ok(s) ==> {
                &&& final(self).staked.shares == s
                &&& liveness_fault ==> {
                    &&& r matches Ok(v) && v@.len() == 0
                    &&& final(self).unbonding == old(self).unbonding
                }
                &&& !liveness_fault ==> {
                    &&& (forall|i: int|
                        0 <= i < old(self).unbonding@.len() ==> (#[trigger] mul_spec(
                            old(self).unbonding@[i].coins.shares,
                            multiplier,
                        )) is Ok) ==> {
                        &&& r matches Ok(v) && v@ == old(self).redelegations_out@
                        &&& final(self).unbonding@.len() == old(self).unbonding@.len()
                        &&& forall|i: int|
                            0 <= i < old(self).unbonding@.len() ==> {
                                &&& (#[trigger] final(self).unbonding@[i]).start_seconds == old(
                                    self,
                                ).unbonding@[i].start_seconds
                                &&& Ok::<Decimal, Error>(final(self).unbonding@[i].coins.shares)
                                    == mul_spec(old(self).unbonding@[i].coins.shares, multiplier)
                            }
                    }
                    &&& (exists|i: int|
                        0 <= i < old(self).unbonding@.len() && (#[trigger] mul_spec(
                            old(self).unbonding@[i].coins.shares,
                            multiplier,
                        )) is Err) ==> r is Err
                }
            },
    {
        self.staked.shares = self.staked.shares.checked_mul(multiplier)?;
        if liveness_fault {
            return Ok(Vec::new());
        }
        let n = self.unbonding.len();
        let ghost u0 = self.unbonding@;
        let mut i: u64 = 0;
        while i < n
            invariant
                self.wf(),
                !liveness_fault,
                multiplier.wf(),
                n == u0.len(),
                i <= n,
                self.unbonding@.len() == u0.len(),
                self.unbonding.meta == old(self).unbonding.meta,
                self.liquid == old(self).liquid,
                self.redelegations_out == old(self).redelegations_out,
                self.redelegations_in == old(self).redelegations_in,
                mul_spec(old(self).staked.shares, multiplier) is Ok,
                self.staked.shares == mul_spec(old(self).staked.shares, multiplier)->Ok_0,
                u0 == old(self).unbonding@,
                forall|j: int|
                    0 <= j < i ==> {
                        &&& (#[trigger] self.unbonding@[j]).start_seconds == u0[j].start_seconds
                        &&& Ok::<Decimal, Error>(self.unbonding@[j].coins.shares) == mul_spec(
                            u0[j].coins.shares,
                            multiplier,
                        )
                    },
                forall|j: int| i <= j < n ==> #[trigger] self.unbonding@[j] == u0[j],
            decreases n - i,
        {
            let ghost before = self.unbonding@;
            let unbond = match self.unbonding.get_mut(i) {
                Some(u) => u,
                None => {
                    return Err(coins_error("Failed to iterate over unbonds"));
                },
            };
            assert(before[i as int].coins.wf());
            let shares = unbond.coins.shares.checked_mul(multiplier);
            match shares {
                Ok(s) => {
                    unbond.coins.shares = s;
                },
                Err(e) => {
                    assert(u0[i as int] == old(self).unbonding@[i as int]);
                    assert(mul_spec(old(self).unbonding@[i as int].coins.shares, multiplier) is Err);
                    return Err(e);
                },
            }
            proof {
                assert forall|j: int| 0 <= j < self.unbonding@.len() implies (
                #[trigger] self.unbonding@[j]).coins.wf() by {
                    if j != i {
                        assert(self.unbonding@[j] == before[j]);
                    }
                }
            }
            i = i + 1;
        }
        assert forall|j: int| 0 <= j < n implies (#[trigger] mul_spec(
            old(self).unbonding@[j].coins.shares,
            multiplier,
        )) is Ok by {
            assert(self.unbonding@[j].start_seconds == u0[j].start_seconds);
        }
        let ghost snap = *self;
        let mut redelegations: Vec<Redelegation> = Vec::new();
        let m = self.redelegations_out.len();
        let mut k: u64 = 0;
        while k < m
            invariant
                !liveness_fault,
                *self == snap,
                self.redelegations_out.wf(),
                m == self.redelegations_out@.len(),
                k <= m,
                redelegations@ == self.redelegations_out@.take(k as int),
            decreases m - k,
        {
            let redelegation = self.redelegations_out.as_slice()[k as usize];
            redelegations.push(redelegation);
            k = k + 1;
            assert(redelegations@ =~= self.redelegations_out@.take(k as int));
        }
        assert(self.redelegations_out@.take(m as int) =~= self.redelegations_out@);
        Ok(redelegations)
    }
}

} // verus!

verus! {

/// An unbond with its shares replaced.
pub open spec fn with_shares<S: Symbol>(u: Unbond<S>, shares: Decimal) -> Unbond<S> {
    Unbond { coins: Share { shares, symbol: u.coins.symbol }, start_seconds: u.start_seconds }
}

/// The unbonds after `remaining` (positive) is slashed from them, front to
/// back: each gives up its whole (rounded) amount or what remains, until
/// nothing remains. `None` when an amount cannot be computed or a take
/// fails.
pub open spec fn slash_unbonds<S: Symbol>(us: Seq<Unbond<S>>, remaining: u64) -> Option<
    Seq<Unbond<S>>,
>
    decreases us.len(),
{
    if us.len() == 0 {
        Some(us)
    } else {
        match us[0].coins.shares.amount_spec() {
            None => None,
            Some(a) => {
                let s: u64 = if remaining > a.value {
                    a.value
                } else {
                    remaining
                };
                let first = if s > 0 {
                    match take_shares(us[0].coins.shares, Amount { value: s }) {
                        Some(Ok(d)) => Some(with_shares(us[0], d)),
                        _ => None,
                    }
                } else {
                    Some(us[0])
                };
                match first {
                    None => None,
                    Some(f) => if remaining - s == 0 {
                        Some(seq![f] + us.drop_first())
                    } else {
                        match slash_unbonds(us.drop_first(), (remaining - s) as u64) {
                            None => None,
                            Some(rest) => Some(seq![f] + rest),
                        }
                    },
                }
            },
        }
    }
}

/// `p` followed by the unbonds of `r`, if any.
pub open spec fn prepend<S: Symbol>(p: Seq<Unbond<S>>, r: Option<Seq<Unbond<S>>>) -> Option<
    Seq<Unbond<S>>,
> {
    match r {
        Some(rest) => Some(p + rest),
        None => None,
    }
}

impl<S: Symbol> Delegator<S> {
    /// Slash a redelegation by the given amount: the stake gives up as much
    /// of it as its (rounded) amount covers, and what remains is slashed from
    /// the pending unbonds, front to back.
    pub fn slash_redelegation(&mut self, amount: Amount) -> (r: Result<()>)
        requires
            old(self).wf(),
        ensures
            final(self).wf(),
            final(self).liquid == old(self).liquid,
            final(self).redelegations_out == old(self).redelegations_out,
            final(self).redelegations_in == old(self).redelegations_in,
            old(self).staked.shares.amount_spec() is None ==> r is Err && *final(self) == *old(self),
            old(self).staked.shares.amount_spec() matches Some(a) ==> {
                let stake_slash: u64 = if amount.value > a.value {
                    a.value
                } else {
                    amount.value
                };
                let taken = if stake_slash > 0 {
                    take_shares(old(self).staked.shares, Amount { value: stake_slash })
                } else {
                    Some(Ok(old(self).staked.shares))
                };
                &&& taken is None ==> fails_with(r, "Insufficient balance"@) && *final(self) == *old(
                    self,
                )
                &&& taken matches Some(Err(e)) ==> r == Err::<(), Error>(e) && *final(self) == *old(
                    self,
                )
                &&& taken matches Some(Ok(d)) ==> {
                    &&& final(self).staked.shares == d
                    &&& stake_slash == amount.value ==> r is Ok && final(self).unbonding == old(
                        self,
                    ).unbonding
                    &&& stake_slash < amount.value ==> match slash_unbonds(
                        old(self).unbonding@,
                        (amount.value - stake_slash) as u64,
                    ) {
                        Some(q) => r is Ok && final(self).unbonding@ == q,
                        None => r is Err,
                    }
                }
            },
    {
        let staked_amount = self.staked.amount()?;
        let stake_slash = if amount.value > staked_amount.value {
            staked_amount
        } else {
            amount
        };
        if stake_slash.value > 0 {
            self.staked.take(stake_slash)?.burn();
        }
        if stake_slash.value == amount.value {
            return Ok(());
        }
        let mut remaining: u64 = amount.value - stake_slash.value;
        let n = self.unbonding.len();
        let ghost u0 = self.unbonding@;
        let ghost r0 = remaining;
        let ghost st = self.staked;
        let mut i: u64 = 0;
        proof {
            assert(u0.skip(0) =~= u0);
            match slash_unbonds(u0, r0) {
                Some(q) => {
                    assert(self.unbonding@.take(0) + q =~= q);
                },
                None => {},
            }
        }
        while i < n
            invariant_except_break
                remaining > 0,
                prepend(self.unbonding@.take(i as int), slash_unbonds(u0.skip(i as int), remaining))
                    == slash_unbonds(u0, r0),
            invariant
                self.wf(),
                u0 == old(self).unbonding@,
                self.staked == st,
                old(self).staked.shares.amount_spec() == Some(staked_amount),
                stake_slash.value == if amount.value > staked_amount.value {
                    staked_amount.value
                } else {
                    amount.value
                },
                stake_slash.value > 0 ==> take_shares(old(self).staked.shares, stake_slash) == Some(
                    Ok::<Decimal, Error>(st.shares),
                ),
                stake_slash.value == 0 ==> st == old(self).staked,
                stake_slash.value < amount.value,
                r0 == amount.value - stake_slash.value,
                n == u0.len(),
                i <= n,
                self.unbonding@.len() == n,
                self.unbonding.meta == old(self).unbonding.meta,
                self.unbonding@.skip(i as int) == u0.skip(i as int),
                self.liquid == old(self).liquid,
                self.redelegations_out == old(self).redelegations_out,
                self.redelegations_in == old(self).redelegations_in,
            ensures
                slash_unbonds(u0, r0) == Some(self.unbonding@),
            decreases n - i,
        {
            let ghost before = self.unbonding@;
            let ghost rem_before = remaining;
            let unbond = match self.unbonding.get_mut(i) {
                Some(u) => u,
                None => {
                    return Ok(());
                },
            };
            proof {
                assert(before[i as int].coins.wf());
                assert(u0.skip(i as int)[0] == before[i as int]);
                assert(u0.skip(i as int).drop_first() =~= u0.skip(i + 1));
            }
            let unbond_amount = unbond.coins.shares.amount()?;
            let unbond_slash: u64 = if remaining > unbond_amount.value {
                unbond_amount.value
            } else {
                remaining
            };
            if unbond_slash > 0 {
                unbond.coins.take(Amount::new(unbond_slash))?.burn();
            }
            remaining = remaining - unbond_slash;
            proof {
                let f = self.unbonding@[i as int];
                assert(self.unbonding@ =~= before.update(i as int, f));
                assert(f.start_seconds == before[i as int].start_seconds);
                if unbond_slash > 0 {
                    assert(f == with_shares(before[i as int], f.coins.shares));
                }
                assert(self.unbonding@.take(i + 1) =~= self.unbonding@.take(i as int).push(f));
                assert(self.unbonding@.skip(i + 1) =~= u0.skip(i + 1));
                assert forall|j: int| 0 <= j < self.unbonding@.len() implies (
                #[trigger] self.unbonding@[j]).coins.wf() by {
                    if j != i {
                        assert(self.unbonding@[j] == before[j]);
                    }
                }
                if remaining == 0 {
                    assert(self.unbonding@ =~= self.unbonding@.take(i as int) + (seq![f] + u0.skip(
                        i as int,
                    ).drop_first()));
                } else {
                    assert(self.unbonding@.take(i as int) + seq![f] =~= self.unbonding@.take(i + 1));
                    match slash_unbonds(u0.skip(i + 1), remaining) {
                        Some(rest) => {
                            assert(self.unbonding@.take(i as int) + (seq![f] + rest)
                                =~= self.unbonding@.take(i + 1) + rest);
                        },
                        None => {},
                    }
                }
            }
            i = i + 1;
            if remaining == 0 {
                break ;
            }
        }
        proof {
            if i == n && remaining > 0 {
                assert(u0.skip(n as int) =~= Seq::<Unbond<S>>::empty());
                assert(self.unbonding@.take(n as int) =~= self.unbonding@);
            }
        }
        Ok(())
    }
}

} // verus!
