//! Asset distribution with minimal iteration, after the F1 fee distribution
//! scheme.
use vstd::prelude::*;

use super::denom_map::{dec_of, dmap_get, dmap_set, dmap_wf, lemma_dec_of_entry, DenomMap};
use super::ops::{add_spec, div_spec, mul_spec, sub_spec};
use super::traits::{Balance, Give, Symbol, Wf};
use super::{Amount, Coin, Decimal};
use crate::collections::ordered_map::{has_key, value_of, OrderedKey, OrderedMap};
use crate::error::{coins_error, fails_with, Error, Result};
use core::marker::PhantomData;

verus! {

/// Values held in a pool: they have a decimal balance of the pool's symbol,
/// receive rewards as `(denom, amount)`, and start empty when a key is first
/// accessed.
pub trait PoolValue<S: Symbol>: Wf + Give<(u8, Amount)> + Balance<S, Decimal> + Sized {
    /// The value is as [PoolValue::empty] makes it.
    spec fn is_fresh(&self) -> bool;

    /// An empty, well-formed value.
    fn empty() -> (r: Self)
        ensures
            r.wf(),
            r.is_fresh(),
    ;

    /// The balance of a well-formed value is a well-formed decimal.
    proof fn lemma_balance_wf(v: Self, d: Decimal)
        requires
            v.wf(),
            v.balance_post(Ok(d)),
        ensures
            d.wf(),
    ;
}

/// A pool entry which tracks the shares and last update period entry for each
/// rewarded denom.
#[derive(Debug)]
pub struct Entry<V> {
    /// The entry's shares of the pool.
    pub shares: Decimal,
    /// The period entry of each denom at the entry's last update.
    pub last_update_period_entry: DenomMap,
    /// The value held.
    pub inner: V,
}

impl<V: Wf> Entry<V> {
    /// The entry's decimals and value are well-formed.
    pub open spec fn wf(&self) -> bool {
        &&& self.shares.wf()
        &&& dmap_wf(self.last_update_period_entry)
        &&& self.inner.wf()
    }
}

/// Implementation of F1 Pool for efficient coin distribution.
///
/// Values are held in a map internally, but accessed via [Pool::get] or
/// [Pool::get_mut], which bring their balances and rewards up to date.
/// A value taken out with [Pool::get_mut] goes back with [Pool::commit], which
/// updates the pool's totals from the change in the value's balance.
#[derive(Debug)]
pub struct Pool<K: OrderedKey, V, S: Symbol> {
    /// Total balance contributed by the entries.
    pub contributions: Decimal,
    /// Rewards given to the pool, per denom.
    pub rewards: DenomMap,
    /// Total shares issued to the entries.
    pub shares_issued: Decimal,
    /// Backing map for values in the pool.
    pub map: OrderedMap<K, Entry<V>>,
    /// Rewards given since the last update, per denom.
    pub rewards_this_period: DenomMap,
    /// The cumulative reward per share of each denom.
    pub last_period_entry: DenomMap,
    /// Set when a commit could not update the pool's totals.
    pub drop_errored: bool,
    /// Phantom data to hold the symbol type.
    pub symbol: PhantomData<S>,
}

/// An entry taken out of a pool by [Pool::get_mut], to be returned with
/// [Pool::commit].
pub struct ChildMut<K, V> {
    /// The key of the entry.
    pub key: K,
    /// The entry, with its rewards brought up to date.
    pub entry: Entry<V>,
    /// The balance of the value when it was taken out.
    pub initial_balance: Decimal,
}

/// A value read from a pool by [Pool::get]: a stored one, or a fresh empty one
/// for a key the pool does not hold.
pub enum Child<'a, V> {
    /// A value stored in the pool.
    Stored(&'a V),
    /// An empty value for a key the pool does not hold.
    Fresh(V),
}

impl<'a, V> Child<'a, V> {
    /// The value.
    pub fn value(&self) -> (r: &V)
        ensures
            r == self.spec_value(),
    {
        match self {
            Child::Stored(v) => *v,
            Child::Fresh(v) => v,
        }
    }

    /// The value.
    pub open spec fn spec_value(&self) -> &V {
        match self {
            Child::Stored(v) => *v,
            Child::Fresh(v) => v,
        }
    }
}

/// The decimal zero as `0.into()` builds it.
pub open spec fn zero_dec() -> Decimal {
    Decimal::from_u64_spec(0)
}

/// The change to an entry for one denom when it catches up with the period
/// entry `pe`: `delta = (pe - last) * contributions * shares / shares_issued`;
/// the last update entry becomes `pe`, and a positive delta that rounds to at
/// least one is given to the value as `(denom, amount)`.
pub open spec fn adjust_step<V: Give<(u8, Amount)>>(
    contributions: Decimal,
    shares_issued: Decimal,
    denom: u8,
    pe: Decimal,
    e: Entry<V>,
    e2: Entry<V>,
) -> bool {
    let last = dec_of(e.last_update_period_entry, denom);
    let delta = div_spec(
        mul_spec(
            mul_spec(sub_spec(pe, last)->Ok_0, contributions)->Ok_0,
            e.shares,
        )->Ok_0,
        shares_issued,
    );
    &&& sub_spec(pe, last) is Ok
    &&& mul_spec(sub_spec(pe, last)->Ok_0, contributions) is Ok
    &&& mul_spec(mul_spec(sub_spec(pe, last)->Ok_0, contributions)->Ok_0, e.shares) is Ok
    &&& delta is Ok
    &&& e2.shares == e.shares
    &&& dec_of(e2.last_update_period_entry, denom) == pe
    &&& forall|k: u8| k != denom ==> #[trigger] dec_of(e2.last_update_period_entry, k) == dec_of(e.last_update_period_entry, k)
    &&& if zero_dec().less_than(delta->Ok_0) {
        &&& delta->Ok_0.amount_spec() is Some
        &&& if delta->Ok_0.amount_spec()->0.value >= 1 {
            e.inner.give_post((denom, delta->Ok_0.amount_spec()->0), e2.inner, Ok(()))
        } else {
            e2.inner == e.inner
        }
    } else {
        e2.inner == e.inner
    }
}

/// The entries `es` lead from the first to the last by one [adjust_step] for
/// each `(denom, period entry)` of `period`, in order.
pub open spec fn adjust_chain<V: Give<(u8, Amount)>>(
    contributions: Decimal,
    shares_issued: Decimal,
    period: Seq<(u8, Decimal)>,
    es: Seq<Entry<V>>,
) -> bool {
    &&& es.len() == period.len() + 1
    &&& forall|i: int|
        0 <= i < period.len() ==> adjust_step(
            contributions,
            shares_issued,
            (#[trigger] period[i]).0,
            period[i].1,
            es[i],
            es[i + 1],
        )
}

impl<K: OrderedKey, V: Wf, S: Symbol> Pool<K, V, S> {
    /// The pool's decimals, maps and entries are well-formed.
    pub open spec fn wf(&self) -> bool {
        &&& self.contributions.wf()
        &&& self.shares_issued.wf()
        &&& dmap_wf(self.rewards)
        &&& dmap_wf(self.rewards_this_period)
        &&& dmap_wf(self.last_period_entry)
        &&& self.map.wf()
        &&& forall|i: int| 0 <= i < self.map.entries@.len() ==> (#[trigger] self.map.entries@[i]).1.wf()
    }

    /// The denoms rewarded this period, in order.
    pub open spec fn period_denoms(&self) -> Seq<u8> {
        self.rewards_this_period.entries@.map_values(|e: (u8, Decimal)| e.0)
    }

    /// Creates an empty pool.
    pub fn new() -> (r: Self)
        ensures
            r.wf(),
            r.map.entries@.len() == 0,
            r.contributions == zero_dec(),
            r.shares_issued == zero_dec(),
            !r.drop_errored,
    {
        Pool {
            contributions: Decimal::from_u64(0),
            rewards: OrderedMap::new(),
            shares_issued: Decimal::from_u64(0),
            map: OrderedMap::new(),
            rewards_this_period: OrderedMap::new(),
            last_period_entry: OrderedMap::new(),
            drop_errored: false,
            symbol: PhantomData,
        }
    }

    /// Fails once a commit could not update the pool's totals.
    fn assert_no_unhandled_drop_err(&self) -> (r: Result<()>)
        ensures
            self.drop_errored ==> fails_with(r, "Unhandled pool child drop error"@),
            !self.drop_errored ==> r is Ok,
    {
        if self.drop_errored {
            return Err(coins_error("Unhandled pool child drop error"));
        }
        Ok(())
    }

    /// Puts an entry back under its key.
    fn put_entry(&mut self, key: K, entry: Entry<V>)
        requires
            old(self).wf(),
            entry.wf(),
        ensures
            final(self).wf(),
            final(self).map.spec_get(key) == Some(entry),
            forall|k2: K| k2 != key ==> #[trigger] final(self).map.spec_get(k2) == old(self).map.spec_get(k2),
            final(self).contributions == old(self).contributions,
            final(self).shares_issued == old(self).shares_issued,
            final(self).rewards == old(self).rewards,
            final(self).rewards_this_period == old(self).rewards_this_period,
            final(self).last_period_entry == old(self).last_period_entry,
            final(self).drop_errored == old(self).drop_errored,
    {
        self.map.insert(key, entry);
        proof {
            self.lemma_entries_wf_after_insert(*old(self), key, entry);
        }
    }

    /// After inserting a well-formed entry, all entries are well-formed.
    proof fn lemma_entries_wf_after_insert(&self, old_pool: Self, key: K, entry: Entry<V>)
        requires
            old_pool.wf(),
            entry.wf(),
            self.map.wf(),
            self.map.spec_get(key) == Some(entry),
            forall|k2: K| k2 != key ==> #[trigger] self.map.spec_get(k2) == old_pool.map.spec_get(k2),
        ensures
            forall|i: int| 0 <= i < self.map.entries@.len() ==> (#[trigger] self.map.entries@[i]).1.wf(),
    {
        assert forall|i: int| 0 <= i < self.map.entries@.len() implies (#[trigger] self.map.entries@[i]).1.wf() by {
            let k2 = self.map.entries@[i].0;
            self.map.lemma_value_at(i);
            if k2 != key {
                assert(self.map.spec_get(k2) == old_pool.map.spec_get(k2));
                let j = choose|j: int| 0 <= j < old_pool.map.entries@.len() && (#[trigger] old_pool.map.entries@[j]).0 == k2;
                old_pool.map.lemma_value_at(j);
            }
        }
    }
}

impl<K: OrderedKey, V: PoolValue<S>, S: Symbol> Pool<K, V, S> {
    /// Takes the entry for `key` out of the map, or makes an empty one.
    fn take_entry(&mut self, key: K) -> (r: Entry<V>)
        requires
            old(self).wf(),
        ensures
            final(self).wf(),
            r.wf(),
            old(self).map.spec_get(key) matches Some(e) ==> r == e,
            old(self).map.spec_get(key) is None ==> r.shares == zero_dec()
                && r.last_update_period_entry.entries@.len() == 0 && r.inner.is_fresh(),
            final(self).map.spec_get(key) is None,
            forall|k2: K| k2 != key ==> #[trigger] final(self).map.spec_get(k2) == old(self).map.spec_get(k2),
            final(self).contributions == old(self).contributions,
            final(self).shares_issued == old(self).shares_issued,
            final(self).rewards == old(self).rewards,
            final(self).rewards_this_period == old(self).rewards_this_period,
            final(self).last_period_entry == old(self).last_period_entry,
            final(self).drop_errored == old(self).drop_errored,
    {
        match self.map.find(&key) {
            Some(i) => {
                proof {
                    assert(self.map.entries@[i as int].1.wf());
                }
                let removed = self.map.remove(&key);
                proof {
                    assert forall|j: int| 0 <= j < self.map.entries@.len() implies (#[trigger] self.map.entries@[j]).1.wf() by {
                        let k2 = self.map.entries@[j].0;
                        self.map.lemma_value_at(j);
                        assert(self.map.spec_get(k2) == old(self).map.spec_get(k2));
                        let j2 = choose|j2: int| 0 <= j2 < old(self).map.entries@.len() && (#[trigger] old(self).map.entries@[j2]).0 == k2;
                        old(self).map.lemma_value_at(j2);
                    }
                }
                match removed {
                    Some(e) => e,
                    None => Entry {
                        shares: Decimal::from_u64(0),
                        last_update_period_entry: OrderedMap::new(),
                        inner: V::empty(),
                    },
                }
            },
            None => {
                Entry {
                    shares: Decimal::from_u64(0),
                    last_update_period_entry: OrderedMap::new(),
                    inner: V::empty(),
                }
            },
        }
    }
}

/// The rewards after adding each denom's reward of this period: for a denom
/// rewarded this period, the sum of its reward and its reward this period;
/// for another, its reward.
pub open spec fn accrued(old_rewards: DenomMap, rtp: DenomMap, new_rewards: DenomMap) -> bool {
    forall|d: u8|
        #![trigger dec_of(new_rewards, d)]
        if has_key(rtp.entries@, d) {
            add_spec(dec_of(old_rewards, d), dec_of(rtp, d)) == Ok::<Decimal, Error>(dec_of(new_rewards, d))
        } else {
            dec_of(new_rewards, d) == dec_of(old_rewards, d)
        }
}

/// Every denom rewarded this period can have its reward this period added to
/// its reward.
pub open spec fn accrue_ok(rewards: DenomMap, rtp: DenomMap) -> bool {
    forall|d: u8| #[trigger] has_key(rtp.entries@, d) ==> add_spec(dec_of(rewards, d), dec_of(rtp, d)) is Ok
}

/// Every denom rewarded this period has a next period entry.
pub open spec fn advance_ok(lpe: DenomMap, rtp: DenomMap, shares_issued: Decimal) -> bool {
    forall|d: u8| #[trigger] has_key(rtp.entries@, d) ==> next_period_entry(lpe, rtp, shares_issued, d) is Ok
}

/// The period entries after a period with these rewards: for a denom rewarded
/// this period, its reward this period over the shares issued, plus its
/// previous period entry; for another, its previous period entry.
pub open spec fn advanced(old_lpe: DenomMap, rtp: DenomMap, shares_issued: Decimal, new_lpe: DenomMap) -> bool {
    forall|d: u8|
        #![trigger dec_of(new_lpe, d)]
        if has_key(rtp.entries@, d) {
            next_period_entry(old_lpe, rtp, shares_issued, d) == Ok::<Decimal, Error>(dec_of(new_lpe, d))
        } else {
            dec_of(new_lpe, d) == dec_of(old_lpe, d)
        }
}

impl<K: OrderedKey, V: PoolValue<S>, S: Symbol> Pool<K, V, S> {
    /// Adds each denom's reward this period to its reward.
    fn accrue_rewards(&mut self) -> (r: Result<()>)
        requires
            old(self).wf(),
        ensures
            final(self).wf(),
            r is Ok ==> accrued(old(self).rewards, old(self).rewards_this_period, final(self).rewards),
            r is Ok <==> accrue_ok(old(self).rewards, old(self).rewards_this_period),
            final(self).map == old(self).map,
            final(self).contributions == old(self).contributions,
            final(self).shares_issued == old(self).shares_issued,
            final(self).rewards_this_period == old(self).rewards_this_period,
            final(self).last_period_entry == old(self).last_period_entry,
            final(self).drop_errored == old(self).drop_errored,
    {
        let n = self.rewards_this_period.entries.len();
        let mut i: usize = 0;
        while i < n
            invariant
                self.wf(),
                n == self.rewards_this_period.entries@.len(),
                i <= n,
                self.map == old(self).map,
                self.contributions == old(self).contributions,
                self.shares_issued == old(self).shares_issued,
                self.rewards_this_period == old(self).rewards_this_period,
                self.last_period_entry == old(self).last_period_entry,
                self.drop_errored == old(self).drop_errored,
                forall|d: u8|
                    #![trigger dec_of(self.rewards, d)]
                    if (exists|j: int| 0 <= j < i && self.rewards_this_period.entries@[j].0 == d) {
                        add_spec(dec_of(old(self).rewards, d), dec_of(self.rewards_this_period, d))
                            == Ok::<Decimal, Error>(dec_of(self.rewards, d))
                    } else {
                        dec_of(self.rewards, d) == dec_of(old(self).rewards, d)
                    },
            decreases n - i,
        {
            let (denom, reward_this_period) = self.rewards_this_period.entries[i];
            proof {
                lemma_dec_of_entry(self.rewards_this_period, i as int);
                assert(self.rewards_this_period.entries@[i as int].1.wf());
                // the denom was not among the earlier entries
                assert forall|j: int| 0 <= j < i implies self.rewards_this_period.entries@[j].0 != denom by {
                    assert(self.rewards_this_period.entries@[j].0.key_lt(self.rewards_this_period.entries@[i as int].0));
                }
            }
            let reward = dmap_get(&self.rewards, denom);
            let sum = match reward.checked_add(reward_this_period) {
                Ok(sum) => sum,
                Err(e) => {
                    proof {
                        assert(self.rewards_this_period.entries@[i as int].0 == denom);
                        assert(has_key(self.rewards_this_period.entries@, denom));
                    }
                    return Err(e);
                },
            };
            dmap_set(&mut self.rewards, denom, sum);
            i = i + 1;
            proof {
                assert forall|d: u8| #![trigger dec_of(self.rewards, d)]
                    if (exists|j: int| 0 <= j < i && self.rewards_this_period.entries@[j].0 == d) {
                        add_spec(dec_of(old(self).rewards, d), dec_of(self.rewards_this_period, d))
                            == Ok::<Decimal, Error>(dec_of(self.rewards, d))
                    } else {
                        dec_of(self.rewards, d) == dec_of(old(self).rewards, d)
                    } by {
                    if d != denom {
                        if exists|j: int| 0 <= j < i && self.rewards_this_period.entries@[j].0 == d {
                            let j = choose|j: int| 0 <= j < i && self.rewards_this_period.entries@[j].0 == d;
                            assert(j < i - 1);
                        }
                    } else {
                        assert(self.rewards_this_period.entries@[i - 1].0 == d);
                    }
                }
            }
        }
        proof {
            assert forall|d: u8| #![trigger dec_of(self.rewards, d)]
                has_key(self.rewards_this_period.entries@, d) == (exists|j: int| 0 <= j < n && self.rewards_this_period.entries@[j].0 == d) by {
                if has_key(self.rewards_this_period.entries@, d) {
                    let j = choose|j: int| 0 <= j < self.rewards_this_period.entries@.len() && (#[trigger] self.rewards_this_period.entries@[j]).0 == d;
                }
            }
            assert forall|d: u8| #[trigger] has_key(self.rewards_this_period.entries@, d) implies add_spec(
                dec_of(old(self).rewards, d),
                dec_of(self.rewards_this_period, d),
            ) is Ok by {
                let j = choose|j: int| 0 <= j < self.rewards_this_period.entries@.len() && (#[trigger] self.rewards_this_period.entries@[j]).0 == d;
                assert(0 <= j < i && self.rewards_this_period.entries@[j].0 == d);
                assert(add_spec(dec_of(old(self).rewards, d), dec_of(self.rewards_this_period, d))
                    == Ok::<Decimal, Error>(dec_of(self.rewards, d)));
            }
        }
        Ok(())
    }
}

/// The period entry a denom rewarded this period moves to: its reward this
/// period over the shares issued, plus its last period entry.
pub open spec fn next_period_entry(lpe: DenomMap, rtp: DenomMap, shares_issued: Decimal, d: u8) -> Result<Decimal> {
    match div_spec(dec_of(rtp, d), shares_issued) {
        Ok(q) => add_spec(q, dec_of(lpe, d)),
        Err(e) => Err(e),
    }
}

/// `period` lists, for each denom rewarded this period in order, its next
/// period entry.
pub open spec fn period_list(lpe: DenomMap, rtp: DenomMap, shares_issued: Decimal, period: Seq<(u8, Decimal)>) -> bool {
    &&& period.len() == rtp.entries@.len()
    &&& forall|j: int|
        0 <= j < period.len() ==> (#[trigger] period[j]).0 == rtp.entries@[j].0
            && next_period_entry(lpe, rtp, shares_issued, rtp.entries@[j].0) == Ok::<Decimal, Error>(period[j].1)
}

impl<K: OrderedKey, V: PoolValue<S>, S: Symbol> Pool<K, V, S> {
    /// Whether any shares have been issued.
    fn has_shares(&self) -> (r: bool)
        requires
            self.wf(),
        ensures
            r == zero_dec().less_than(self.shares_issued),
    {
        self.shares_issued.gt_amount(Amount::new(0))
    }

    /// The next period entry of each denom rewarded this period, when shares
    /// have been issued; none otherwise. Nothing is stored.
    fn period_entries(&self) -> (r: Result<Vec<(u8, Decimal)>>)
        requires
            self.wf(),
        ensures
            r matches Ok(v) ==> {
                &&& zero_dec().less_than(self.shares_issued) ==> period_list(
                    self.last_period_entry,
                    self.rewards_this_period,
                    self.shares_issued,
                    v@,
                )
                &&& !zero_dec().less_than(self.shares_issued) ==> v@.len() == 0
                &&& forall|j: int| 0 <= j < v@.len() ==> (#[trigger] v@[j]).1.wf()
            },
            r is Ok <==> (zero_dec().less_than(self.shares_issued) ==> advance_ok(
                self.last_period_entry,
                self.rewards_this_period,
                self.shares_issued,
            )),
    {
        let mut out: Vec<(u8, Decimal)> = Vec::new();
        if !self.has_shares() {
            return Ok(out);
        }
        let n = self.rewards_this_period.entries.len();
        let mut i: usize = 0;
        while i < n
            invariant
                self.wf(),
                zero_dec().less_than(self.shares_issued),
                n == self.rewards_this_period.entries@.len(),
                i <= n,
                out@.len() == i,
                forall|j: int|
                    0 <= j < i ==> (#[trigger] out@[j]).0 == self.rewards_this_period.entries@[j].0
                        && next_period_entry(self.last_period_entry, self.rewards_this_period, self.shares_issued, self.rewards_this_period.entries@[j].0)
                        == Ok::<Decimal, Error>(out@[j].1),
                forall|j: int| 0 <= j < out@.len() ==> (#[trigger] out@[j]).1.wf(),
            decreases n - i,
        {
            let (denom, reward_this_period) = self.rewards_this_period.entries[i];
            proof {
                lemma_dec_of_entry(self.rewards_this_period, i as int);
                assert(self.rewards_this_period.entries@[i as int].1.wf());
            }
            let last_entry = dmap_get(&self.last_period_entry, denom);
            proof {
                assert(self.rewards_this_period.entries@[i as int].0 == denom);
                assert(has_key(self.rewards_this_period.entries@, denom));
            }
            let q = reward_this_period.checked_div(self.shares_issued)?;
            let updated = q.checked_add(last_entry)?;
            out.push((denom, updated));
            i = i + 1;
        }
        proof {
            assert forall|d: u8| #[trigger] has_key(self.rewards_this_period.entries@, d) implies next_period_entry(
                self.last_period_entry,
                self.rewards_this_period,
                self.shares_issued,
                d,
            ) is Ok by {
                let j = choose|j: int| 0 <= j < self.rewards_this_period.entries@.len() && (#[trigger] self.rewards_this_period.entries@[j]).0 == d;
                assert(out@[j].0 == d);
            }
        }
        Ok(out)
    }

    /// Moves the period entry of each denom rewarded this period forward and
    /// stores it, when shares have been issued, returning them in order.
    fn advance_period_entries(&mut self) -> (r: Result<Vec<(u8, Decimal)>>)
        requires
            old(self).wf(),
        ensures
            final(self).wf(),
            r matches Ok(v) ==> {
                &&& zero_dec().less_than(old(self).shares_issued) ==> {
                    &&& period_list(old(self).last_period_entry, old(self).rewards_this_period, old(self).shares_issued, v@)
                    &&& advanced(old(self).last_period_entry, old(self).rewards_this_period, old(self).shares_issued, final(self).last_period_entry)
                }
                &&& !zero_dec().less_than(old(self).shares_issued) ==> v@.len() == 0
                    && final(self).last_period_entry == old(self).last_period_entry
                &&& forall|j: int| 0 <= j < v@.len() ==> (#[trigger] v@[j]).1.wf()
            },
            r is Ok <==> (zero_dec().less_than(old(self).shares_issued) ==> advance_ok(
                old(self).last_period_entry,
                old(self).rewards_this_period,
                old(self).shares_issued,
            )),
            final(self).map == old(self).map,
            final(self).contributions == old(self).contributions,
            final(self).shares_issued == old(self).shares_issued,
            final(self).rewards == old(self).rewards,
            final(self).rewards_this_period == old(self).rewards_this_period,
            final(self).drop_errored == old(self).drop_errored,
    {
        let mut out: Vec<(u8, Decimal)> = Vec::new();
        if !self.has_shares() {
            return Ok(out);
        }
        let n = self.rewards_this_period.entries.len();
        let mut i: usize = 0;
        while i < n
            invariant
                self.wf(),
                zero_dec().less_than(self.shares_issued),
                n == self.rewards_this_period.entries@.len(),
                i <= n,
                out@.len() == i,
                self.map == old(self).map,
                self.contributions == old(self).contributions,
                self.shares_issued == old(self).shares_issued,
                self.rewards == old(self).rewards,
                self.rewards_this_period == old(self).rewards_this_period,
                self.drop_errored == old(self).drop_errored,
                forall|j: int|
                    0 <= j < i ==> (#[trigger] out@[j]).0 == self.rewards_this_period.entries@[j].0
                        && next_period_entry(old(self).last_period_entry, self.rewards_this_period, self.shares_issued, self.rewards_this_period.entries@[j].0)
                        == Ok::<Decimal, Error>(out@[j].1),
                forall|j: int| 0 <= j < out@.len() ==> (#[trigger] out@[j]).1.wf(),
                forall|d: u8|
                    #![trigger dec_of(self.last_period_entry, d)]
                    if (exists|j: int| 0 <= j < i && self.rewards_this_period.entries@[j].0 == d) {
                        next_period_entry(old(self).last_period_entry, self.rewards_this_period, self.shares_issued, d)
                            == Ok::<Decimal, Error>(dec_of(self.last_period_entry, d))
                    } else {
                        dec_of(self.last_period_entry, d) == dec_of(old(self).last_period_entry, d)
                    },
            decreases n - i,
        {
            let (denom, reward_this_period) = self.rewards_this_period.entries[i];
            proof {
                lemma_dec_of_entry(self.rewards_this_period, i as int);
                assert(self.rewards_this_period.entries@[i as int].1.wf());
                assert forall|j: int| 0 <= j < i implies self.rewards_this_period.entries@[j].0 != denom by {
                    assert(self.rewards_this_period.entries@[j].0.key_lt(self.rewards_this_period.entries@[i as int].0));
                }
            }
            let last_entry = dmap_get(&self.last_period_entry, denom);
            proof {
                assert(self.rewards_this_period.entries@[i as int].0 == denom);
                assert(has_key(self.rewards_this_period.entries@, denom));
                assert(last_entry == dec_of(old(self).last_period_entry, denom));
            }
            let q = reward_this_period.checked_div(self.shares_issued)?;
            let updated = q.checked_add(last_entry)?;
            dmap_set(&mut self.last_period_entry, denom, updated);
            out.push((denom, updated));
            i = i + 1;
            proof {
                assert forall|d: u8| #![trigger dec_of(self.last_period_entry, d)]
                    if (exists|j: int| 0 <= j < i && self.rewards_this_period.entries@[j].0 == d) {
                        next_period_entry(old(self).last_period_entry, self.rewards_this_period, self.shares_issued, d)
                            == Ok::<Decimal, Error>(dec_of(self.last_period_entry, d))
                    } else {
                        dec_of(self.last_period_entry, d) == dec_of(old(self).last_period_entry, d)
                    } by {
                    if d != denom {
                        if exists|j: int| 0 <= j < i && self.rewards_this_period.entries@[j].0 == d {
                            let j = choose|j: int| 0 <= j < i && self.rewards_this_period.entries@[j].0 == d;
                            assert(j < i - 1);
                        }
                    } else {
                        assert(self.rewards_this_period.entries@[i - 1].0 == d);
                    }
                }
            }
        }
        proof {
            assert forall|d: u8| #![trigger dec_of(self.last_period_entry, d)]
                has_key(self.rewards_this_period.entries@, d) == (exists|j: int| 0 <= j < n && self.rewards_this_period.entries@[j].0 == d) by {
                if has_key(self.rewards_this_period.entries@, d) {
                    let j = choose|j: int| 0 <= j < self.rewards_this_period.entries@.len() && (#[trigger] self.rewards_this_period.entries@[j]).0 == d;
                }
            }
            assert forall|d: u8| #[trigger] has_key(self.rewards_this_period.entries@, d) implies next_period_entry(
                old(self).last_period_entry,
                self.rewards_this_period,
                self.shares_issued,
                d,
            ) is Ok by {
                let j = choose|j: int| 0 <= j < self.rewards_this_period.entries@.len() && (#[trigger] self.rewards_this_period.entries@[j]).0 == d;
                assert(out@[j].0 == d);
            }
        }
        Ok(out)
    }

    /// Sets each denom's reward this period back to zero.
    fn reset_rewards_this_period(&mut self)
        requires
            old(self).wf(),
        ensures
            final(self).wf(),
            forall|d: u8| #[trigger] has_key(final(self).rewards_this_period.entries@, d) == has_key(old(self).rewards_this_period.entries@, d),
            forall|d: u8| has_key(old(self).rewards_this_period.entries@, d) ==> #[trigger] dec_of(final(self).rewards_this_period, d) == zero_dec(),
            final(self).map == old(self).map,
            final(self).contributions == old(self).contributions,
            final(self).shares_issued == old(self).shares_issued,
            final(self).rewards == old(self).rewards,
            final(self).last_period_entry == old(self).last_period_entry,
            final(self).drop_errored == old(self).drop_errored,
    {
        let n = self.rewards_this_period.entries.len();
        let ghost keys = self.rewards_this_period.entries@.map_values(|e: (u8, Decimal)| e.0);
        let mut i: usize = 0;
        while i < n
            invariant
                self.wf(),
                n == self.rewards_this_period.entries@.len(),
                i <= n,
                keys == self.rewards_this_period.entries@.map_values(|e: (u8, Decimal)| e.0),
                keys == old(self).rewards_this_period.entries@.map_values(|e: (u8, Decimal)| e.0),
                forall|d: u8| #[trigger] has_key(self.rewards_this_period.entries@, d) == has_key(old(self).rewards_this_period.entries@, d),
                forall|j: int| 0 <= j < i ==> #[trigger] dec_of(self.rewards_this_period, keys[j]) == zero_dec(),
                self.map == old(self).map,
                self.contributions == old(self).contributions,
                self.shares_issued == old(self).shares_issued,
                self.rewards == old(self).rewards,
                self.last_period_entry == old(self).last_period_entry,
                self.drop_errored == old(self).drop_errored,
            decreases n - i,
        {
            let denom = self.rewards_this_period.entries[i].0;
            let ghost before = self.rewards_this_period;
            proof {
                before.lemma_value_at(i as int);
            }
            dmap_set(&mut self.rewards_this_period, denom, Decimal::from_u64(0));
            proof {
                assert(has_key(before.entries@, denom));
                assert(self.rewards_this_period.entries@.map_values(|e: (u8, Decimal)| e.0) =~= keys);
            }
            i = i + 1;
        }
        proof {
            assert forall|d: u8| has_key(old(self).rewards_this_period.entries@, d) implies #[trigger] dec_of(self.rewards_this_period, d) == zero_dec() by {
                let j = choose|j: int| 0 <= j < old(self).rewards_this_period.entries@.len() && (#[trigger] old(self).rewards_this_period.entries@[j]).0 == d;
                assert(keys[j] == d);
            }
        }
    }
}

impl<K: OrderedKey, V: PoolValue<S>, S: Symbol> Pool<K, V, S> {
    /// Brings an entry up to date with the given period entries, paying it
    /// its share of each denom's rewards since its last update.
    fn adjust_entry(
        contributions: Decimal,
        shares_issued: Decimal,
        new_period_entry: &Vec<(u8, Decimal)>,
        entry: &mut Entry<V>,
    ) -> (r: Result<()>)
        requires
            old(entry).wf(),
            contributions.wf(),
            shares_issued.wf(),
            forall|j: int| 0 <= j < new_period_entry@.len() ==> (#[trigger] new_period_entry@[j]).1.wf(),
        ensures
            final(entry).wf(),
            r is Ok ==> {
                &&& zero_dec().less_than(shares_issued) ==> exists|es: Seq<Entry<V>>|
                    {
                        &&& #[trigger] adjust_chain(contributions, shares_issued, new_period_entry@, es)
                        &&& es[0] == *old(entry)
                        &&& es.last() == *final(entry)
                    }
                &&& !zero_dec().less_than(shares_issued) ==> *final(entry) == *old(entry)
            },
            !zero_dec().less_than(shares_issued) || new_period_entry@.len() == 0 ==> r is Ok && *final(entry)
                == *old(entry),
    {
        if !shares_issued.gt_amount(Amount::new(0)) {
            return Ok(());
        }
        let n = new_period_entry.len();
        let mut i: usize = 0;
        let ghost mut es: Seq<Entry<V>> = seq![*entry];
        while i < n
            invariant
                entry.wf(),
                contributions.wf(),
                shares_issued.wf(),
                zero_dec().less_than(shares_issued),
                forall|j: int| 0 <= j < new_period_entry@.len() ==> (#[trigger] new_period_entry@[j]).1.wf(),
                n == new_period_entry@.len(),
                i <= n,
                es.len() == i + 1,
                es[0] == *old(entry),
                es.last() == *entry,
                forall|j: int|
                    0 <= j < i ==> adjust_step(
                        contributions,
                        shares_issued,
                        (#[trigger] new_period_entry@[j]).0,
                        new_period_entry@[j].1,
                        es[j],
                        es[j + 1],
                    ),
            decreases n - i,
        {
            let (denom_index, new_denom_period_entry) = new_period_entry[i];
            assert(new_period_entry@[i as int].1.wf());
            let ghost before = *entry;
            let last_entry = dmap_get(&entry.last_update_period_entry, denom_index);
            let t1 = new_denom_period_entry.checked_sub(last_entry)?;
            let t2 = t1.checked_mul(contributions)?;
            let t3 = t2.checked_mul(entry.shares)?;
            let delta = t3.checked_div(shares_issued)?;
            dmap_set(&mut entry.last_update_period_entry, denom_index, new_denom_period_entry);
            if delta.gt_amount(Amount::new(0)) {
                let amount_to_give = delta.amount()?;
                if amount_to_give.value >= 1 {
                    entry.inner.give((denom_index, amount_to_give))?;
                }
            }
            proof {
                es = es.push(*entry);
                assert(adjust_step(contributions, shares_issued, denom_index, new_denom_period_entry, before, *entry));
                assert forall|j: int| 0 <= j < i + 1 implies adjust_step(
                    contributions,
                    shares_issued,
                    (#[trigger] new_period_entry@[j]).0,
                    new_period_entry@[j].1,
                    es[j],
                    es[j + 1],
                ) by {
                    if j == i {
                        assert(es[j] == before);
                        assert(es[j + 1] == *entry);
                    }
                }
            }
            i = i + 1;
        }
        assert(adjust_chain(contributions, shares_issued, new_period_entry@, es));
        Ok(())
    }
}

/// `e0` is the stored entry, or an empty one when none is stored.
pub open spec fn stored_or_empty<V: PoolValue<S>, S: Symbol>(stored: Option<Entry<V>>, e0: Entry<V>) -> bool {
    &&& e0.wf()
    &&& stored matches Some(e) ==> e0 == e
    &&& stored is None ==> e0.shares == zero_dec() && e0.last_update_period_entry.entries@.len() == 0
        && e0.inner.is_fresh()
}

/// `e1` is `e0` brought up to date with the period entries `period`.
pub open spec fn adjusted<V: Give<(u8, Amount)>>(
    contributions: Decimal,
    shares_issued: Decimal,
    period: Seq<(u8, Decimal)>,
    e0: Entry<V>,
    e1: Entry<V>,
) -> bool {
    if zero_dec().less_than(shares_issued) {
        exists|es: Seq<Entry<V>>|
            {
                &&& #[trigger] adjust_chain(contributions, shares_issued, period, es)
                &&& es[0] == e0
                &&& es.last() == e1
            }
    } else {
        e1 == e0
    }
}

impl<K: OrderedKey, V: PoolValue<S>, S: Symbol> Pool<K, V, S> {
    /// Reading a value cannot fail and leaves the entries as they are: the
    /// pool holds no unhandled error, and nothing was rewarded this period or
    /// no shares were issued, so entries are already up to date.
    pub open spec fn settled(&self) -> bool {
        &&& !self.drop_errored
        &&& self.rewards_this_period.entries@.len() == 0 || !zero_dec().less_than(self.shares_issued)
    }
}

/// The balance of `v` is never an error.
pub open spec fn balance_never_fails<V: PoolValue<S>, S: Symbol>(v: V) -> bool {
    forall|b: Result<Decimal>| #[trigger] v.balance_post(b) ==> b is Ok
}

impl<K: OrderedKey, V: PoolValue<S>, S: Symbol> Pool<K, V, S> {
    /// Taking out the value at `key` cannot fail: the pool holds no unhandled
    /// error, its rewards of the period can be accrued, no period entry has
    /// to be advanced (nothing was rewarded this period, or no shares were
    /// issued), and the value's balance can be read.
    pub open spec fn get_mut_ok(&self, key: K) -> bool {
        &&& !self.drop_errored
        &&& accrue_ok(self.rewards, self.rewards_this_period)
        &&& self.rewards_this_period.entries@.len() == 0 || !zero_dec().less_than(self.shares_issued)
        &&& forall|e0: Entry<V>| #[trigger] stored_or_empty::<V, S>(self.map.spec_get(key), e0)
            ==> balance_never_fails::<V, S>(e0.inner)
    }

    /// Mutably access an adjusted value in the pool: the value is taken out,
    /// the period's rewards are accrued and the value is paid its share of
    /// them. Changes will be propagated to the pool when the returned
    /// [ChildMut] is handed back to [Pool::commit].
    pub fn get_mut(&mut self, key: K) -> (r: Result<ChildMut<K, V>>)
        requires
            old(self).wf(),
        ensures
            final(self).wf(),
            old(self).drop_errored ==> fails_with(r, "Unhandled pool child drop error"@)
                && *final(self) == *old(self),
            final(self).contributions == old(self).contributions,
            final(self).shares_issued == old(self).shares_issued,
            final(self).drop_errored == old(self).drop_errored,
            forall|k2: K| k2 != key ==> #[trigger] final(self).map.spec_get(k2) == old(self).map.spec_get(k2),
            old(self).get_mut_ok(key) ==> r is Ok,
            r matches Ok(child) ==> {
                &&& child.key == key
                &&& child.entry.wf()
                &&& child.initial_balance.wf()
                &&& final(self).map.spec_get(key) is None
                &&& accrued(old(self).rewards, old(self).rewards_this_period, final(self).rewards)
                &&& forall|d: u8| #[trigger] has_key(final(self).rewards_this_period.entries@, d) == has_key(old(self).rewards_this_period.entries@, d)
                &&& forall|d: u8| has_key(old(self).rewards_this_period.entries@, d) ==> #[trigger] dec_of(final(self).rewards_this_period, d) == zero_dec()
                &&& zero_dec().less_than(old(self).shares_issued) ==> advanced(
                    old(self).last_period_entry,
                    old(self).rewards_this_period,
                    old(self).shares_issued,
                    final(self).last_period_entry,
                )
                &&& !zero_dec().less_than(old(self).shares_issued) ==> final(self).last_period_entry == old(self).last_period_entry
                &&& exists|e0: Entry<V>, period: Seq<(u8, Decimal)>|
                    {
                        &&& #[trigger] stored_or_empty::<V, S>(old(self).map.spec_get(key), e0)
                        &&& e0.inner.balance_post(Ok(child.initial_balance))
                        &&& zero_dec().less_than(old(self).shares_issued) ==> period_list(
                            old(self).last_period_entry,
                            old(self).rewards_this_period,
                            old(self).shares_issued,
                            period,
                        )
                        &&& #[trigger] adjusted(old(self).contributions, old(self).shares_issued, period, e0, child.entry)
                    }
            },
    {
        self.assert_no_unhandled_drop_err()?;
        let mut entry = self.take_entry(key);
        let ghost e0 = entry;
        match self.accrue_rewards() {
            Ok(()) => {},
            Err(e) => {
                self.put_entry(key, entry);
                return Err(e);
            },
        }
        proof {
            assert(stored_or_empty::<V, S>(old(self).map.spec_get(key), e0));
        }
        let initial_balance = match entry.inner.balance() {
            Ok(b) => b,
            Err(e) => {
                self.put_entry(key, entry);
                return Err(e);
            },
        };
        proof {
            V::lemma_balance_wf(entry.inner, initial_balance);
        }
        let ghost rewards_after = self.rewards;
        let period = match self.advance_period_entries() {
            Ok(p) => p,
            Err(e) => {
                self.put_entry(key, entry);
                return Err(e);
            },
        };
        self.reset_rewards_this_period();
        let contributions = self.contributions;
        let shares_issued = self.shares_issued;
        match Self::adjust_entry(contributions, shares_issued, &period, &mut entry) {
            Ok(()) => {},
            Err(e) => {
                self.put_entry(key, entry);
                return Err(e);
            },
        }
        proof {
            assert(stored_or_empty::<V, S>(old(self).map.spec_get(key), e0));
            assert(adjusted(old(self).contributions, old(self).shares_issued, period@, e0, entry));
        }
        Ok(ChildMut { key, entry, initial_balance })
    }
}

/// What committing a child does to the pool's contributions `c`, its shares
/// issued `s` and the entry's shares `es`, given the value's balance `start`
/// when it was taken out and `end` now: `(c', s', es', errored)`. A nonzero
/// balance change is added to the contributions, and the entry gets new shares
/// for it: the change itself when the pool held nothing, else
/// `s * change / c`. A failed step sets `errored` and stops there.
pub open spec fn commit_outcome(
    c: Decimal,
    s: Decimal,
    es: Decimal,
    start: Decimal,
    end: Result<Decimal>,
) -> (Decimal, Decimal, Decimal, bool) {
    match end {
        Err(_) => (c, s, es, true),
        Ok(b) => match sub_spec(b, start) {
            Err(_) => (c, s, es, true),
            Ok(ch) => if ch.mag() == 0 {
                (c, s, es, false)
            } else {
                let ns = if c.mag() == 0 {
                    Ok(ch)
                } else {
                    match mul_spec(s, ch) {
                        Ok(m) => div_spec(m, c),
                        Err(e) => Err(e),
                    }
                };
                match ns {
                    Err(_) => (c, s, es, true),
                    Ok(n) => match add_spec(es, n) {
                        Err(_) => (c, s, es, true),
                        Ok(es2) => match add_spec(c, ch) {
                            Err(_) => (c, s, es2, true),
                            Ok(c2) => match add_spec(s, n) {
                                Err(_) => (c2, s, es2, true),
                                Ok(s2) => (c2, s2, es2, false),
                            },
                        },
                    },
                }
            },
        },
    }
}

impl<K: OrderedKey, V: PoolValue<S>, S: Symbol> Pool<K, V, S> {
    /// Returns a value taken out with [Pool::get_mut], updating the pool's
    /// contributions and shares from the change in its balance. A step that
    /// fails sets [Pool::drop_errored], which later calls report.
    pub fn commit(&mut self, child: ChildMut<K, V>)
        requires
            old(self).wf(),
            child.entry.wf(),
            child.initial_balance.wf(),
        ensures
            final(self).wf(),
            exists|end: Result<Decimal>|
                {
                    &&& #[trigger] child.entry.inner.balance_post(end)
                    &&& ({
                        let (c2, s2, es2, errored) = commit_outcome(
                            old(self).contributions,
                            old(self).shares_issued,
                            child.entry.shares,
                            child.initial_balance,
                            end,
                        );
                        &&& final(self).contributions == c2
                        &&& final(self).shares_issued == s2
                        &&& final(self).drop_errored == (old(self).drop_errored || errored)
                        &&& final(self).map.spec_get(child.key) == Some(Entry { shares: es2, ..child.entry })
                    })
                },
            forall|k2: K| k2 != child.key ==> #[trigger] final(self).map.spec_get(k2) == old(self).map.spec_get(k2),
            final(self).rewards == old(self).rewards,
            final(self).rewards_this_period == old(self).rewards_this_period,
            final(self).last_period_entry == old(self).last_period_entry,
    {
        let ChildMut { key, mut entry, initial_balance } = child;
        let start_balance = initial_balance;
        let ghost e_in = entry;
        let end = entry.inner.balance();
        let end_balance = match end {
            Ok(bal) => bal,
            Err(_) => {
                self.drop_errored = true;
                self.put_entry(key, entry);
                return;
            },
        };
        proof {
            V::lemma_balance_wf(entry.inner, end_balance);
        }
        let balance_change = match end_balance.checked_sub(start_balance) {
            Ok(bal) => bal,
            Err(_) => {
                self.drop_errored = true;
                self.put_entry(key, entry);
                return;
            },
        };
        if !balance_change.is_zero() {
            let new_shares = if self.contributions.is_zero() {
                balance_change
            } else {
                let m = match self.shares_issued.checked_mul(balance_change) {
                    Ok(v) => v,
                    Err(_) => {
                        self.drop_errored = true;
                        self.put_entry(key, entry);
                        return;
                    },
                };
                match m.checked_div(self.contributions) {
                    Ok(v) => v,
                    Err(_) => {
                        self.drop_errored = true;
                        self.put_entry(key, entry);
                        return;
                    },
                }
            };
            entry.shares = match entry.shares.checked_add(new_shares) {
                Ok(v) => v,
                Err(_) => {
                    self.drop_errored = true;
                    self.put_entry(key, entry);
                    return;
                },
            };
            self.contributions = match self.contributions.checked_add(balance_change) {
                Ok(v) => v,
                Err(_) => {
                    self.drop_errored = true;
                    self.put_entry(key, entry);
                    return;
                },
            };
            self.shares_issued = match self.shares_issued.checked_add(new_shares) {
                Ok(v) => v,
                Err(_) => {
                    self.drop_errored = true;
                    self.put_entry(key, entry);
                    return;
                },
            };
        }
        self.put_entry(key, entry);
    }

    /// Adds rewards of a denom to the pool, to be shared by the entries in
    /// proportion to their shares. An empty pool refuses them.
    pub fn give_denom(&mut self, denom: u8, amount: Amount) -> (r: Result<()>)
        requires
            old(self).wf(),
        ensures
            final(self).wf(),
            old(self).give_denom_post(denom, amount, *final(self), r),
    {
        if self.contributions.value_eq(&Decimal::from_u64(0)) {
            return Err(coins_error("Cannot add directly to an empty pool"));
        }
        let reward_this_period = dmap_get(&self.rewards_this_period, denom);
        let sum = reward_this_period.add_amount(amount)?;
        dmap_set(&mut self.rewards_this_period, denom, sum);
        Ok(())
    }

    /// Holds when `new` and `r` follow giving `amount` of `denom` to the pool:
    /// with zero contributions it fails with "Cannot add directly to an empty
    /// pool"; else the amount is added to the denom's rewards this period.
    /// A failure changes nothing.
    pub open spec fn give_denom_post(self, denom: u8, amount: Amount, new: Self, r: Result<()>) -> bool {
        if self.contributions.same_value(zero_dec()) {
            new == self && fails_with(r, "Cannot add directly to an empty pool"@)
        } else {
            match add_spec(Decimal::from_u64_spec(amount.value), dec_of(self.rewards_this_period, denom)) {
                Ok(d) => {
                    &&& r == Ok::<(), Error>(())
                    &&& dec_of(new.rewards_this_period, denom) == d
                    &&& forall|k: u8| k != denom ==> #[trigger] dec_of(new.rewards_this_period, k) == dec_of(self.rewards_this_period, k)
                    &&& new.map == self.map
                    &&& new.contributions == self.contributions
                    &&& new.shares_issued == self.shares_issued
                    &&& new.rewards == self.rewards
                    &&& new.last_period_entry == self.last_period_entry
                    &&& new.drop_errored == self.drop_errored
                },
                Err(e) => new == self && r == Err::<(), Error>(e),
            }
        }
    }
}

impl<K: OrderedKey, V: Wf, S: Symbol> Wf for Pool<K, V, S> {
    open spec fn wf(&self) -> bool {
        Pool::wf(self)
    }
}

impl<K: OrderedKey, V: PoolValue<S>, S: Symbol, T: Symbol> Give<Coin<T>> for Pool<K, V, S> {
    open spec fn give_post(self, coin: Coin<T>, new: Self, r: Result<()>) -> bool {
        self.give_denom_post(T::INDEX, coin.amount, new, r)
    }

    fn give(&mut self, coin: Coin<T>) -> (r: Result<()>) {
        self.give_denom(T::INDEX, coin.amount)
    }
}

impl<K: OrderedKey, V: PoolValue<S>, S: Symbol> Give<(u8, Amount)> for Pool<K, V, S> {
    open spec fn give_post(self, coin: (u8, Amount), new: Self, r: Result<()>) -> bool {
        self.give_denom_post(coin.0, coin.1, new, r)
    }

    fn give(&mut self, coin: (u8, Amount)) -> (r: Result<()>) {
        self.give_denom(coin.0, coin.1)
    }
}

impl<K: OrderedKey, V: PoolValue<S>, S: Symbol> Balance<S, Decimal> for Pool<K, V, S> {
    open spec fn balance_post(&self, r: Result<Decimal>) -> bool {
        r == Ok::<Decimal, Error>(self.contributions)
    }

    fn balance(&self) -> (r: Result<Decimal>) {
        Ok(self.contributions)
    }
}

impl<K: OrderedKey, V: PoolValue<S>, S: Symbol> Pool<K, V, S> {
    /// Returns an adjusted view of the entry. A stored entry is brought up to
    /// date in place (paid its share of the rewards given so far), but the
    /// pool's own period bookkeeping is not advanced; for a key the pool does
    /// not hold, an empty value is returned and nothing is stored.
    pub fn get(&mut self, key: K) -> (r: Result<Child<'_, V>>)
        requires
            old(self).wf(),
        ensures
            final(self).wf(),
            old(self).drop_errored ==> fails_with(r, "Unhandled pool child drop error"@)
                && *final(self) == *old(self),
            final(self).contributions == old(self).contributions,
            final(self).shares_issued == old(self).shares_issued,
            final(self).drop_errored == old(self).drop_errored,
            final(self).rewards == old(self).rewards,
            final(self).rewards_this_period == old(self).rewards_this_period,
            final(self).last_period_entry == old(self).last_period_entry,
            forall|k2: K| k2 != key ==> #[trigger] final(self).map.spec_get(k2) == old(self).map.spec_get(k2),
            r matches Ok(child) ==> child.spec_value().wf(),
            old(self).settled() ==> (r matches Ok(child) && final(self).map.spec_get(key) == old(self).map.spec_get(key)
                && (old(self).map.spec_get(key) matches Some(e) ==> *child.spec_value() == e.inner)),
            r matches Ok(child) ==> exists|e0: Entry<V>, e1: Entry<V>, period: Seq<(u8, Decimal)>|
                {
                    &&& #[trigger] stored_or_empty::<V, S>(old(self).map.spec_get(key), e0)
                    &&& zero_dec().less_than(old(self).shares_issued) ==> period_list(
                        old(self).last_period_entry,
                        old(self).rewards_this_period,
                        old(self).shares_issued,
                        period,
                    )
                    &&& #[trigger] adjusted(old(self).contributions, old(self).shares_issued, period, e0, e1)
                    &&& *child.spec_value() == e1.inner
                    &&& old(self).map.spec_get(key) is Some ==> final(self).map.spec_get(key) == Some(e1)
                    &&& old(self).map.spec_get(key) is None ==> final(self).map.spec_get(key) is None
                },
    {
        self.assert_no_unhandled_drop_err()?;
        let period = self.period_entries()?;
        let contributions = self.contributions;
        let shares_issued = self.shares_issued;
        if self.map.contains_key(&key) {
            let mut entry = self.take_entry(key);
            let ghost e0 = entry;
            match Self::adjust_entry(contributions, shares_issued, &period, &mut entry) {
                Ok(()) => {},
                Err(e) => {
                    self.put_entry(key, entry);
                    return Err(e);
                },
            }
            let ghost e1 = entry;
            self.put_entry(key, entry);
            let found = self.map.find(&key);
            proof {
                assert(has_key(self.map.entries@, key));
                assert(stored_or_empty::<V, S>(old(self).map.spec_get(key), e0));
                assert(adjusted(old(self).contributions, old(self).shares_issued, period@, e0, e1));
            }
            let i = found.unwrap();
            Ok(Child::Stored(&self.map.entries[i].1.inner))
        } else {
            let mut entry = Entry {
                shares: Decimal::from_u64(0),
                last_update_period_entry: OrderedMap::new(),
                inner: V::empty(),
            };
            let ghost e0 = entry;
            Self::adjust_entry(contributions, shares_issued, &period, &mut entry)?;
            proof {
                assert(stored_or_empty::<V, S>(old(self).map.spec_get(key), e0));
                assert(adjusted(old(self).contributions, old(self).shares_issued, period@, e0, entry));
            }
            Ok(Child::Fresh(entry.inner))
        }
    }

    /// The keys of the pool's entries, in order.
    pub fn keys(&self) -> (r: Vec<K>)
        ensures
            r@.len() == self.map.entries@.len(),
            forall|i: int| 0 <= i < r@.len() ==> #[trigger] r@[i] == self.map.entries@[i].0,
    {
        let mut out: Vec<K> = Vec::new();
        let mut i: usize = 0;
        while i < self.map.entries.len()
            invariant
                i <= self.map.entries@.len(),
                out@.len() == i,
                forall|j: int| 0 <= j < i ==> #[trigger] out@[j] == self.map.entries@[j].0,
            decreases self.map.entries@.len() - i,
        {
            out.push(self.map.entries[i].0);
            i = i + 1;
        }
        out
    }
}

} // verus!
