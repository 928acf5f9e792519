//! A declared validator and the delegators staked to it.
use vstd::prelude::*;

use super::delegator::{Delegator, Redelegation};
use crate::coins::ops::{mul_spec, sub_spec};
use crate::coins::pool::{adjust_chain, adjust_step, adjusted, stored_or_empty, zero_dec, Entry, PoolValue};
use crate::collections::ordered_map::{sorted_by_key, OrderedKey};
use crate::coins::traits::{Balance, Give, Symbol, Wf};
use crate::coins::{Address, Amount, Coin, Decimal, MultiShare, Pool};
use crate::error::{coins_error, fails_with, Error, Result};

verus! {

/// Commission settings for a validator.
#[derive(Clone, Copy, Debug)]
pub struct Commission {
    /// The amount of rewards taken by the validator as a commission (0-1). May
    /// be changed by validator edits.
    pub rate: Decimal,
    /// The max commission rate the validator can set. May not be edited.
    pub max: Decimal,
    /// The maximum amount that the rate may change in a single edit. May not be
    /// edited.
    pub max_change: Decimal,
}

impl Commission {
    /// The three rates are well-formed decimals.
    pub open spec fn wf(&self) -> bool {
        &&& self.rate.wf()
        &&& self.max.wf()
        &&& self.max_change.wf()
    }

    /// A commission of zero with zero limits.
    pub fn zero() -> (r: Self)
        ensures
            r.wf(),
            r.rate == Decimal::zero_spec(),
            r.max == Decimal::zero_spec(),
            r.max_change == Decimal::zero_spec(),
    {
        Commission { rate: Decimal::zero(), max: Decimal::zero(), max_change: Decimal::zero() }
    }
}

/// Current validator status, computed by [Validator::status].
#[derive(Clone, Copy, Debug, PartialEq, Eq, Structural)]
pub enum Status {
    /// Inactive, tokens may be freely unbonded.
    Unbonded,
    /// Active, tokens are staked and participating in consensus. Unbonds are
    /// subject to the full unbonding period.
    Bonded,
    /// Inactive, but tokens are still at stake for past actions. Unbonds are
    /// initialized with the time this status was entered.
    Unbonding {
        /// The time (in unix seconds) when the unbonding started.
        start_seconds: i64,
    },
}

/// Data required to slash redelegations from a single DVP.
#[derive(Debug)]
pub struct SlashableRedelegation {
    /// Delegator address.
    pub delegator_address: Address,
    /// Outbound redelegations that may be slashed.
    pub outbound_redelegations: Vec<Redelegation>,
}

/// A single declared validator.
///
/// A `Validator` tracks the staking state of a single validator, including its
/// commission rate, delegators, and unbonding status.
#[derive(Debug)]
pub struct Validator<S: Symbol> {
    /// If the validator is jailed, the time (in unix seconds) when it will be
    /// eligible to unjail.
    pub jailed_until: Option<i64>,
    /// Whether the validator may re-enter the active set.
    pub tombstoned: bool,
    /// Operator address.
    pub address: Address,
    /// Commission settings.
    pub commission: Commission,
    /// Delegators staked to this validator.
    pub delegators: Pool<Address, Delegator<S>, S>,
    /// Metadata used for display purposes. Not parsed on-chain.
    pub info: Vec<u8>,
    /// Whether this validator is currently in the active set.
    pub in_active_set: bool,
    /// Whether this validator is currently unbonding.
    pub unbonding: bool,
    /// When this validator started unbonding, if applicable.
    pub unbonding_start_seconds: i64,
    /// The last time this validator was edited, in unix seconds.
    pub last_edited_seconds: i64,
    /// The minimum amount this validator must keep self-delegated to remain
    /// active.
    pub min_self_delegation: Amount,
}

/// Queryable information about a validator, aggregated for convenience.
#[derive(Debug)]
pub struct ValidatorQueryInfo {
    /// If the validator is jailed, the time (in unix seconds) when it will be
    /// eligible to unjail.
    pub jailed_until: Option<i64>,
    /// Whether the validator may re-enter the active set.
    pub tombstoned: bool,
    /// Operator address.
    pub address: Address,
    /// Commission settings.
    pub commission: Commission,
    /// Metadata used for display purposes. Not parsed on-chain.
    pub info: Vec<u8>,
    /// Whether the validator is currently in the active set.
    pub in_active_set: bool,
    /// Whether the validator is currently unbonding.
    pub unbonding: bool,
    /// When the validator started unbonding, if applicable.
    pub unbonding_start_seconds: i64,
    /// The minimum amount this validator must keep self-delegated to remain
    /// active.
    pub min_self_delegation: Amount,
    /// Whether the validator is currently jailed.
    pub jailed: bool,
    /// The total amount staked to this validator.
    pub amount_staked: Amount,
}

/// The status of a validator with the given flags.
pub open spec fn status_of(unbonding: bool, in_active_set: bool, unbonding_start_seconds: i64) -> Status {
    if unbonding {
        Status::Unbonding { start_seconds: unbonding_start_seconds }
    } else if in_active_set {
        Status::Bonded
    } else {
        Status::Unbonded
    }
}

/// How a reward of `amount` splits under the commission `rate`: the
/// delegators' part `amount * (1 - rate)` and the validator's part
/// `amount * rate`, each rounded to a whole amount; `None` when a step fails.
pub open spec fn commission_split(amount: Amount, rate: Decimal) -> Option<(Amount, Amount)> {
    let a = Decimal::from_u64_spec(amount.value);
    match sub_spec(Decimal::from_u64_spec(1), rate) {
        Err(_) => None,
        Ok(rest) => match mul_spec(a, rest) {
            Err(_) => None,
            Ok(d) => match d.amount_spec() {
                None => None,
                Some(da) => match mul_spec(a, rate) {
                    Err(_) => None,
                    Ok(v) => match v.amount_spec() {
                        None => None,
                        Some(va) => Some((da, va)),
                    },
                },
            },
        },
    }
}

impl<S: Symbol> Validator<S> {
    /// The fields other than the delegators' pool are those of `other`.
    pub open spec fn same_but_delegators(&self, other: Self) -> bool {
        &&& self.jailed_until == other.jailed_until
        &&& self.tombstoned == other.tombstoned
        &&& self.address == other.address
        &&& self.commission == other.commission
        &&& self.info == other.info
        &&& self.in_active_set == other.in_active_set
        &&& self.unbonding == other.unbonding
        &&& self.unbonding_start_seconds == other.unbonding_start_seconds
        &&& self.last_edited_seconds == other.last_edited_seconds
        &&& self.min_self_delegation == other.min_self_delegation
    }

    /// The validator's own stake: the staked shares of its self-delegation,
    /// or zero when it has none.
    pub open spec fn self_stake(&self) -> Decimal {
        match self.delegators.map.spec_get(self.address) {
            Some(e) => e.inner.staked.shares,
            None => Decimal::zero_spec(),
        }
    }

    /// A validator with no delegators, not jailed, inactive, with a zero
    /// commission and the null address.
    pub fn new() -> (r: Self)
        ensures
            r.wf(),
            r.jailed_until is None,
            !r.tombstoned,
            !r.in_active_set,
            !r.unbonding,
            r.delegators.map.entries@.len() == 0,
            r.min_self_delegation.value == 0,
    {
        Validator {
            jailed_until: None,
            tombstoned: false,
            address: Address::null(),
            commission: Commission::zero(),
            delegators: Pool::new(),
            info: Vec::new(),
            in_active_set: false,
            unbonding: false,
            unbonding_start_seconds: 0,
            last_edited_seconds: 0,
            min_self_delegation: Amount::new(0),
        }
    }

    /// Whether this validator is currently jailed.
    pub fn jailed(&self) -> (r: bool)
        ensures
            r == self.jailed_until is Some,
    {
        self.jailed_until.is_some()
    }

    /// The current bonding status of the validator.
    pub fn status(&self) -> (r: Status)
        ensures
            r == status_of(self.unbonding, self.in_active_set, self.unbonding_start_seconds),
    {
        if self.unbonding {
            Status::Unbonding { start_seconds: self.unbonding_start_seconds }
        } else if self.in_active_set {
            Status::Bonded
        } else {
            Status::Unbonded
        }
    }

    /// Jails the validator until `seconds` after `now`, or keeps a later
    /// release time it already has.
    pub fn jail_for_seconds(&mut self, now: i64, seconds: u64) -> (r: Result<()>)
        requires
            i64::MIN <= now + (seconds as i64) <= i64::MAX,
        ensures
            r is Ok,
            final(self).jailed_until == Some(
                match old(self).jailed_until {
                    Some(j) => if now + (seconds as i64) > j {
                        (now + (seconds as i64)) as i64
                    } else {
                        j
                    },
                    None => (now + (seconds as i64)) as i64,
                },
            ),
            final(self).same_jail_aside(*old(self)),
    {
        let release = now + seconds as i64;
        let jailed_until = match self.jailed_until {
            Some(jailed_until) => if release > jailed_until {
                release
            } else {
                jailed_until
            },
            None => release,
        };
        self.jailed_until = Some(jailed_until);
        Ok(())
    }

    /// The fields other than the jail time are those of `other`.
    pub open spec fn same_jail_aside(&self, other: Self) -> bool {
        &&& self.tombstoned == other.tombstoned
        &&& self.address == other.address
        &&& self.commission == other.commission
        &&& self.delegators == other.delegators
        &&& self.info == other.info
        &&& self.in_active_set == other.in_active_set
        &&& self.unbonding == other.unbonding
        &&& self.unbonding_start_seconds == other.unbonding_start_seconds
        &&& self.last_edited_seconds == other.last_edited_seconds
        &&& self.min_self_delegation == other.min_self_delegation
    }

    /// Jails the validator indefinitely.
    pub fn jail_forever(&mut self)
        ensures
            final(self).jailed_until == Some(i64::MAX),
            final(self).same_jail_aside(*old(self)),
    {
        self.jailed_until = Some(i64::MAX);
    }

    /// Unjails the validator if it is currently jailed and its jail time has
    /// passed.
    pub fn try_unjail(&mut self, now: i64) -> (r: Result<()>)
        ensures
            final(self).same_jail_aside(*old(self)),
            match old(self).jailed_until {
                Some(j) => if now > j {
                    r is Ok && final(self).jailed_until is None
                } else {
                    fails_with(r, "Validator cannot yet unjail"@) && final(self).jailed_until
                        == old(self).jailed_until
                },
                None => fails_with(r, "Validator is not jailed"@) && final(self).jailed_until
                    is None,
            },
    {
        match self.jailed_until {
            Some(jailed_until) => {
                if now > jailed_until {
                    self.jailed_until = None;
                } else {
                    return Err(coins_error("Validator cannot yet unjail"));
                }
            },
            None => return Err(coins_error("Validator is not jailed")),
        }
        Ok(())
    }

    /// Returns all addresses delegated to this validator, in order.
    pub fn delegator_keys(&self) -> (r: Vec<Address>)
        ensures
            r@.len() == self.delegators.map.entries@.len(),
            forall|i: int| 0 <= i < r@.len() ==> #[trigger] r@[i] == self.delegators.map.entries@[i].0,
    {
        self.delegators.keys()
    }

    /// Returns the self-delegation amount of the validator.
    pub fn self_delegation(&self) -> (r: Result<Amount>)
        requires
            self.wf(),
        ensures
            self.self_stake().amount_post(r),
    {
        match self.delegators.map.get(&self.address) {
            Some(e) => {
                proof {
                    let i = choose|i: int|
                        0 <= i < self.delegators.map.entries@.len() && (
                        #[trigger] self.delegators.map.entries@[i]).0 == self.address;
                    self.delegators.map.lemma_value_at(i);
                }
                e.inner.staked.amount()
            },
            None => Decimal::zero().amount(),
        }
    }

    /// Checks whether the validator is below its required self-delegation.
    fn below_required_self_delegation(&self) -> (r: Result<bool>)
        requires
            self.wf(),
        ensures
            match self.self_stake().amount_spec() {
                Some(a) => r == Ok::<bool, Error>(a.value < self.min_self_delegation.value),
                None => r is Err,
            },
    {
        let stake = self.self_delegation()?;
        Ok(stake.value < self.min_self_delegation.value)
    }

    /// Amount staked to this validator, as counted for voting power.
    pub fn staked(&self) -> (r: Result<Amount>)
        requires
            self.wf(),
        ensures
            exists|b: Result<Decimal>|
                #[trigger] self.balance_post(b) && match b {
                    Ok(d) => d.amount_post(r),
                    Err(e) => r == Err::<Amount, Error>(e),
                },
    {
        let b = self.balance();
        match b {
            Ok(d) => {
                proof {
                    Self::lemma_balance_wf(*self, d);
                }
                d.amount()
            },
            Err(e) => Err(e),
        }
    }

    /// The validator with its active flag set.
    pub open spec fn activated(self) -> Self {
        Validator { in_active_set: true, ..self }
    }

    /// How much voting power the validator would have, were it in the active
    /// set.
    ///
    /// The active flag is set while the balance is computed and restored
    /// afterwards; when the balance fails, the flag stays set.
    pub fn potential_vp(&mut self) -> (r: Result<Amount>)
        requires
            old(self).wf(),
        ensures
            final(self).wf(),
            exists|b: Result<Decimal>|
                {
                    &&& #[trigger] old(self).activated().balance_post(b)
                    &&& match b {
                        Ok(d) => d.amount_post(r) && *final(self) == *old(self),
                        Err(e) => r == Err::<Amount, Error>(e) && *final(self) == old(self).activated(),
                    }
                },
    {
        let in_active_set_before = self.in_active_set;
        self.in_active_set = true;
        let b = self.balance();
        let d = match b {
            Ok(d) => d,
            Err(e) => {
                return Err(e);
            },
        };
        proof {
            Self::lemma_balance_wf(*self, d);
        }
        let res = d.amount();
        self.in_active_set = in_active_set_before;
        res
    }
}

impl<S: Symbol> Wf for Validator<S> {
    open spec fn wf(&self) -> bool {
        &&& self.delegators.wf()
        &&& self.commission.wf()
    }
}

impl<S: Symbol> Balance<S, Decimal> for Validator<S> {
    /// Zero while jailed, outside the active set or below the required
    /// self-delegation; otherwise the delegators' total contributions.
    open spec fn balance_post(&self, r: Result<Decimal>) -> bool {
        if self.jailed_until is Some || !self.in_active_set {
            r == Ok::<Decimal, Error>(zero_dec())
        } else {
            match self.self_stake().amount_spec() {
                None => r is Err,
                Some(a) => if a.value < self.min_self_delegation.value {
                    r == Ok::<Decimal, Error>(zero_dec())
                } else {
                    r == Ok::<Decimal, Error>(self.delegators.contributions)
                },
            }
        }
    }

    fn balance(&self) -> (r: Result<Decimal>) {
        if self.jailed() || !self.in_active_set || self.below_required_self_delegation()? {
            Ok(Decimal::from_u64(0))
        } else {
            Ok(self.delegators.contributions)
        }
    }
}

/// The stake of `k` among a pool of delegators: its staked shares, or zero
/// when it has no entry.
pub open spec fn stake_in<S: Symbol>(p: Pool<Address, Delegator<S>, S>, k: Address) -> Decimal {
    match p.map.spec_get(k) {
        Some(e) => e.inner.staked.shares,
        None => Decimal::zero_spec(),
    }
}

/// The unbonds of `k` among a pool of delegators: its unbonding queue, or
/// none when it has no entry.
pub open spec fn unbonding_in<S: Symbol>(p: Pool<Address, Delegator<S>, S>, k: Address) -> Seq<
    super::delegator::Unbond<S>,
> {
    match p.map.spec_get(k) {
        Some(e) => e.inner.unbonding@,
        None => Seq::empty(),
    }
}

impl<S: Symbol> Validator<S> {
    /// Every delegator has the same stake in both.
    pub open spec fn same_stakes(&self, other: Self) -> bool {
        forall|k: Address| #[trigger] stake_in(self.delegators, k) == stake_in(other.delegators, k)
    }

    /// Every delegator has the same unbonds in both.
    pub open spec fn same_unbonding(&self, other: Self) -> bool {
        forall|k: Address| #[trigger] unbonding_in(self.delegators, k) == unbonding_in(other.delegators, k)
    }

    /// How `new` pays a reward of `amount` in `denom` given to `self`: the
    /// commission split succeeds, and the validator's own delegation has its
    /// part added to its liquid balance.
    pub open spec fn reward_paid(&self, denom: u8, amount: Amount, new: Self) -> bool {
        let split = commission_split(amount, self.commission.rate);
        &&& split is Some
        &&& new.delegators.map.spec_get(self.address) is Some
        &&& exists|before: MultiShare|
            #[trigger] before.add_post(denom, (split->0).1, new.delegators.map.spec_get(self.address)->0.inner.liquid, Ok(()))
    }

    /// Splits a reward by the commission and pays both parts: the delegators'
    /// part to the delegators' pool, the validator's part to its own
    /// delegation. No stake changes.
    fn give_split(&mut self, denom: u8, amount: Amount) -> (r: Result<()>)
        requires
            old(self).wf(),
        ensures
            final(self).wf(),
            final(self).same_but_delegators(*old(self)),
            commission_split(amount, old(self).commission.rate) is None ==> r is Err && *final(self)
                == *old(self),
            r is Ok ==> final(self).same_stakes(*old(self)),
            r is Ok ==> final(self).same_unbonding(*old(self)),
            r is Ok ==> old(self).reward_paid(denom, amount, *final(self)),
    {
        let one = Decimal::from_u64(1);
        let rest = one.checked_sub(self.commission.rate)?;
        let delegator_amount = amount.mul_decimal(rest)?.amount()?;
        let validator_amount = amount.mul_decimal(self.commission.rate)?.amount()?;
        self.delegators.give((denom, delegator_amount))?;
        let ghost p1 = self.delegators;
        let mut child = self.delegators.get_mut(self.address)?;
        proof {
            let (e0, period) = choose|e0: Entry<Delegator<S>>, period: Seq<(u8, Decimal)>|
                {
                    &&& #[trigger] stored_or_empty::<Delegator<S>, S>(p1.map.spec_get(self.address), e0)
                    &&& #[trigger] adjusted(p1.contributions, p1.shares_issued, period, e0, child.entry)
                };
            lemma_adjusted_keeps_stake(p1.contributions, p1.shares_issued, period, e0, child.entry);
        }
        let ghost own0 = child.entry.inner;
        let r = child.entry.inner.give((denom, validator_amount));
        let ghost own1 = child.entry.inner;
        self.delegators.commit(child);
        proof {
            assert(commission_split(amount, old(self).commission.rate) == Some((delegator_amount, validator_amount)));
            if r is Ok {
                assert(own0.liquid.add_post(denom, validator_amount, own1.liquid, Ok(())));
                assert(self.delegators.map.spec_get(old(self).address)->0.inner == own1);
                assert((commission_split(amount, old(self).commission.rate)->0).1 == validator_amount);
                assert(old(self).reward_paid(denom, amount, *self));
            }
            assert forall|k: Address| #[trigger] stake_in(self.delegators, k) == stake_in(
                old(self).delegators,
                k,
            ) by {
                if k != self.address {
                    assert(self.delegators.map.spec_get(k) == p1.map.spec_get(k));
                }
            }
            if r is Ok {
                assert forall|k: Address| #[trigger] unbonding_in(self.delegators, k) == unbonding_in(
                    old(self).delegators,
                    k,
                ) by {
                    if k != self.address {
                        assert(self.delegators.map.spec_get(k) == p1.map.spec_get(k));
                    }
                }
            }
        }
        r
    }
}

impl<S: Symbol> Give<(u8, Amount)> for Validator<S> {
    /// The reward is split by the commission (failing, with nothing changed,
    /// when the split cannot be computed) and paid as `reward_paid` says;
    /// only the delegators' pool changes.
    open spec fn give_post(self, coins: (u8, Amount), new: Self, r: Result<()>) -> bool {
        &&& new.same_but_delegators(self)
        &&& commission_split(coins.1, self.commission.rate) is None ==> r is Err && new == self
        &&& r is Ok ==> new.same_stakes(self)
        &&& r is Ok ==> new.same_unbonding(self)
        &&& r is Ok ==> self.reward_paid(coins.0, coins.1, new)
    }

    fn give(&mut self, coins: (u8, Amount)) -> (r: Result<()>) {
        self.give_split(coins.0, coins.1)
    }
}

impl<S: Symbol, T: Symbol> Give<Coin<T>> for Validator<S> {
    /// As for `(T::INDEX, amount)`.
    open spec fn give_post(self, coins: Coin<T>, new: Self, r: Result<()>) -> bool {
        &&& new.same_but_delegators(self)
        &&& commission_split(coins.amount, self.commission.rate) is None ==> r is Err && new == self
        &&& r is Ok ==> new.same_stakes(self)
        &&& r is Ok ==> new.same_unbonding(self)
        &&& r is Ok ==> self.reward_paid(T::INDEX, coins.amount, new)
    }

    fn give(&mut self, coins: Coin<T>) -> (r: Result<()>) {
        self.give_split(T::INDEX, coins.amount)
    }
}

impl<S: Symbol> PoolValue<S> for Validator<S> {
    /// No delegators.
    open spec fn is_fresh(&self) -> bool {
        self.delegators.map.entries@.len() == 0
    }

    fn empty() -> (r: Self) {
        Validator::new()
    }

    proof fn lemma_balance_wf(v: Self, d: Decimal) {
    }
}

} // verus!

verus! {

/// Each step of an adjustment chain of delegator entries keeps the stake.
proof fn lemma_chain_keeps_stake<S: Symbol>(
    c: Decimal,
    s: Decimal,
    period: Seq<(u8, Decimal)>,
    es: Seq<Entry<Delegator<S>>>,
    n: int,
)
    requires
        adjust_chain(c, s, period, es),
        0 <= n <= period.len(),
    ensures
        es[n].inner.staked == es[0].inner.staked,
        es[n].inner.unbonding == es[0].inner.unbonding,
    decreases n,
{
    if n > 0 {
        lemma_chain_keeps_stake(c, s, period, es, n - 1);
        assert(adjust_step(c, s, period[n - 1].0, period[n - 1].1, es[n - 1], es[n]));
    }
}

/// Bringing a delegator's entry up to date (paying it rewards) keeps its
/// stake.
pub proof fn lemma_adjusted_keeps_stake<S: Symbol>(
    c: Decimal,
    s: Decimal,
    period: Seq<(u8, Decimal)>,
    e0: Entry<Delegator<S>>,
    e1: Entry<Delegator<S>>,
)
    requires
        adjusted(c, s, period, e0, e1),
    ensures
        e1.inner.staked == e0.inner.staked,
        e1.inner.unbonding == e0.inner.unbonding,
{
    if zero_dec().less_than(s) {
        let es = choose|es: Seq<Entry<Delegator<S>>>|
            #[trigger] adjust_chain(c, s, period, es) && es[0] == e0 && es.last() == e1;
        lemma_chain_keeps_stake(c, s, period, es, period.len() as int);
    }
}

/// The stake stored for a delegator of a pool, if any.
pub open spec fn stake_of<S: Symbol>(p: Pool<Address, Delegator<S>, S>, k: Address) -> Option<
    Decimal,
> {
    match p.map.spec_get(k) {
        Some(e) => Some(e.inner.staked.shares),
        None => None,
    }
}

impl<S: Symbol> Validator<S> {
    /// Slash all funds staked to the validator by the given `penalty`: each
    /// delegator's stake is multiplied by `1 - penalty`.
    ///
    /// A tombstoned validator is not slashed again. A slash that is not for a
    /// liveness fault tombstones the validator, and also returns each
    /// delegator's outbound redelegations, which are subject to the slash too.
    pub fn slash(&mut self, penalty: Decimal, liveness_fault: bool) -> (r: Result<
        Vec<SlashableRedelegation>,
    >)
        requires
            old(self).wf(),
            penalty.wf(),
        ensures
            final(self).wf(),
            old(self).tombstoned ==> (r matches Ok(v) && v@.len() == 0) && *final(self) == *old(
                self,
            ),
            !old(self).tombstoned ==> {
                &&& final(self).tombstoned == !liveness_fault
                &&& final(self).same_jail_aside(Validator { tombstoned: !liveness_fault, jailed_until: final(self).jailed_until, delegators: final(self).delegators, ..*old(self) })
                &&& final(self).jailed_until == old(self).jailed_until
                &&& sub_spec(Decimal::from_u64_spec(1), penalty) is Err ==> r is Err
                    && final(self).delegators == old(self).delegators
                &&& r is Ok ==> {
                    let m = sub_spec(Decimal::from_u64_spec(1), penalty)->Ok_0;
                    &&& sub_spec(Decimal::from_u64_spec(1), penalty) is Ok
                    &&& forall|i: int|
                        0 <= i < old(self).delegators.map.entries@.len() ==> {
                            let k = (#[trigger] old(self).delegators.map.entries@[i]).0;
                            stake_of(final(self).delegators, k) == Some(
                                mul_spec(old(self).delegators.map.entries@[i].1.inner.staked.shares, m)->Ok_0,
                            )
                        }
                    &&& r matches Ok(v) && v@.len() == old(self).delegators.map.entries@.len()
                        && forall|i: int|
                        0 <= i < v@.len() ==> (#[trigger] v@[i]).delegator_address == old(
                            self,
                        ).delegators.map.entries@[i].0
                }
            },
    {
        if self.tombstoned {
            return Ok(Vec::new());
        }
        if !liveness_fault {
            self.tombstoned = true;
        }
        let one = Decimal::from_u64(1);
        let slash_multiplier = one.checked_sub(penalty)?;
        let keys = self.delegator_keys();
        let ghost entries0 = old(self).delegators.map.entries@;
        let mut redelegations: Vec<SlashableRedelegation> = Vec::new();
        let mut i: usize = 0;
        assert forall|j: int| 0 <= j < entries0.len() implies self.delegators.map.spec_get(
            #[trigger] entries0[j].0,
        ) == Some(entries0[j].1) by {
            old(self).delegators.map.lemma_value_at(j);
        }
        while i < keys.len()
            invariant
                self.wf(),
                !old(self).tombstoned,
                slash_multiplier.wf(),
                slash_multiplier == sub_spec(Decimal::from_u64_spec(1), penalty)->Ok_0,
                sub_spec(Decimal::from_u64_spec(1), penalty) is Ok,
                entries0 == old(self).delegators.map.entries@,
                keys@.len() == entries0.len(),
                forall|j: int| 0 <= j < keys@.len() ==> #[trigger] keys@[j] == entries0[j].0,
                sorted_by_key(entries0),
                i <= keys@.len(),
                redelegations@.len() == i,
                forall|j: int| 0 <= j < i ==> (#[trigger] redelegations@[j]).delegator_address == keys@[j],
                self.tombstoned == !liveness_fault,
                self.same_jail_aside(Validator { tombstoned: !liveness_fault, jailed_until: self.jailed_until, delegators: self.delegators, ..*old(self) }),
                self.jailed_until == old(self).jailed_until,
                forall|j: int| 0 <= j < i ==> stake_of(self.delegators, #[trigger] entries0[j].0) == Some(
                    mul_spec(entries0[j].1.inner.staked.shares, slash_multiplier)->Ok_0,
                ),
                forall|j: int| i <= j < entries0.len() ==> self.delegators.map.spec_get(#[trigger] entries0[j].0) == Some(entries0[j].1),
            decreases keys@.len() - i,
        {
            let k = keys[i];
            proof {
                old(self).delegators.map.lemma_value_at(i as int);
            }
            let ghost pre = self.delegators;
            assert(pre.map.spec_get(k) == Some(entries0[i as int].1));
            let mut child = self.delegators.get_mut(k)?;
            proof {
                let (e0, period) = choose|e0: Entry<Delegator<S>>, period: Seq<(u8, Decimal)>|
                    {
                        &&& #[trigger] stored_or_empty::<Delegator<S>, S>(pre.map.spec_get(k), e0)
                        &&& #[trigger] adjusted(pre.contributions, pre.shares_issued, period, e0, child.entry)
                    };
                lemma_adjusted_keeps_stake(pre.contributions, pre.shares_issued, period, e0, child.entry);
                assert(child.entry.inner.staked == entries0[i as int].1.inner.staked);
            }
            let ghost mid = self.delegators;
            let res = child.entry.inner.slash(slash_multiplier, liveness_fault);
            let ghost slashed = child.entry;
            self.delegators.commit(child);
            proof {
                assert forall|j: int| 0 <= j < entries0.len() && j != i implies (#[trigger] entries0[j]).0 != k by {
                    Address::lemma_key_order(k, k, k);
                    if j < i {
                        assert(entries0[j].0.key_lt(entries0[i as int].0));
                    } else {
                        assert(entries0[i as int].0.key_lt(entries0[j].0));
                    }
                }
                assert forall|j: int| 0 <= j < entries0.len() && j != i implies self.delegators.map.spec_get(#[trigger] entries0[j].0) == pre.map.spec_get(entries0[j].0) by {
                    assert(mid.map.spec_get(entries0[j].0) == pre.map.spec_get(entries0[j].0));
                }
            }
            let outbound = res?;
            proof {
                assert(stake_of(self.delegators, k) == Some(slashed.inner.staked.shares));
            }
            redelegations.push(SlashableRedelegation { delegator_address: k, outbound_redelegations: outbound });
            i = i + 1;
        }
        Ok(redelegations)
    }
}

} // verus!

verus! {

impl<S: Symbol> Validator<S> {
    /// Returns a [ValidatorQueryInfo] for this validator; the staked amount
    /// `q` is the query information of this validator: its fields, whether it
    /// is jailed, and its delegators' contributions as a whole amount.
    pub open spec fn described_by(&self, q: ValidatorQueryInfo) -> bool {
        &&& q.jailed_until == self.jailed_until
        &&& q.tombstoned == self.tombstoned
        &&& q.address == self.address
        &&& q.commission == self.commission
        &&& q.info@ == self.info@
        &&& q.in_active_set == self.in_active_set
        &&& q.unbonding == self.unbonding
        &&& q.unbonding_start_seconds == self.unbonding_start_seconds
        &&& q.min_self_delegation == self.min_self_delegation
        &&& q.jailed == self.jailed_until is Some
        &&& self.delegators.contributions.amount_spec() == Some(q.amount_staked)
    }

    /// is the delegators' total contributions.
    pub fn query_info(&self) -> (r: Result<ValidatorQueryInfo>)
        requires
            self.wf(),
        ensures
            self.delegators.contributions.amount_spec() is None ==> r is Err,
            self.delegators.contributions.amount_spec() is Some ==> (r matches Ok(q) && self.described_by(q)),
    {
        let amount_staked = self.delegators.contributions.amount()?;
        Ok(ValidatorQueryInfo {
            jailed_until: self.jailed_until,
            address: self.address,
            commission: self.commission,
            in_active_set: self.in_active_set,
            info: self.info.clone(),
            min_self_delegation: self.min_self_delegation,
            tombstoned: self.tombstoned,
            unbonding: self.unbonding,
            unbonding_start_seconds: self.unbonding_start_seconds,
            jailed: self.jailed(),
            amount_staked,
        })
    }
}

} // verus!

verus! {

/// Each step of an adjustment chain of validator entries changes only the
/// validator's delegators.
proof fn lemma_chain_keeps_validator<S: Symbol>(
    c: Decimal,
    s: Decimal,
    period: Seq<(u8, Decimal)>,
    es: Seq<Entry<Validator<S>>>,
    n: int,
)
    requires
        adjust_chain(c, s, period, es),
        0 <= n <= period.len(),
    ensures
        es[n].inner.same_but_delegators(es[0].inner),
        es[n].inner.same_stakes(es[0].inner),
        es[n].inner.same_unbonding(es[0].inner),
    decreases n,
{
    if n > 0 {
        lemma_chain_keeps_validator(c, s, period, es, n - 1);
        assert(adjust_step(c, s, period[n - 1].0, period[n - 1].1, es[n - 1], es[n]));
        assert forall|k: Address| #[trigger] stake_in(es[n].inner.delegators, k) == stake_in(
            es[0].inner.delegators,
            k,
        ) by {
            assert(stake_in(es[n].inner.delegators, k) == stake_in(es[n - 1].inner.delegators, k));
        }
        assert forall|k: Address| #[trigger] unbonding_in(es[n].inner.delegators, k) == unbonding_in(
            es[0].inner.delegators,
            k,
        ) by {
            assert(unbonding_in(es[n].inner.delegators, k) == unbonding_in(es[n - 1].inner.delegators, k));
        }
    }
}

/// Bringing a validator's entry up to date (paying it rewards) changes only
/// its delegators.
pub proof fn lemma_adjusted_keeps_validator<S: Symbol>(
    c: Decimal,
    s: Decimal,
    period: Seq<(u8, Decimal)>,
    e0: Entry<Validator<S>>,
    e1: Entry<Validator<S>>,
)
    requires
        adjusted(c, s, period, e0, e1),
    ensures
        e1.inner.same_but_delegators(e0.inner),
        e1.inner.same_stakes(e0.inner),
        e1.inner.same_unbonding(e0.inner),
{
    if zero_dec().less_than(s) {
        let es = choose|es: Seq<Entry<Validator<S>>>|
            #[trigger] adjust_chain(c, s, period, es) && es[0] == e0 && es.last() == e1;
        lemma_chain_keeps_validator(c, s, period, es, period.len() as int);
    }
}

} // verus!
