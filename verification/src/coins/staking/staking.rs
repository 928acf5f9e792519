//! The staking module: validators, delegations, unbonding and slashing.
use vstd::prelude::*;

use super::delegator::{take_shares, Delegator, Unbond};
use crate::coins::ops::{add_spec, sub_spec};
use super::keys::{TmHash, ValidatorPowerEntry, ValidatorQueueEntry};
use super::validator::{stake_in, status_of, unbonding_in, Commission, Status, Validator};
use crate::coins::address::{sha256, sha256_digest};
use crate::coins::pool::{zero_dec, ChildMut};
use crate::coins::traits::{Give, Symbol, Wf};
use crate::coins::{Address, Amount, Coin, Decimal, Pool, Share};
use crate::collections::ordered_map::{has_key, value_of, OrderedKey, OrderedMap};
use crate::collections::Deque;
use crate::error::{coins_error, fails_with, Error, Result};

verus! {

/// How often a validator can be edited, in seconds (one day).
pub const EDIT_INTERVAL_SECONDS: u64 = 86400;

/// The longest validator info accepted, in bytes.
pub const MAX_INFO_LENGTH: usize = 5000;

/// Queue entry for unbonding delegations.
#[derive(Clone, Copy, Debug)]
pub struct UnbondingDelegationEntry {
    /// Validator address.
    pub validator_address: Address,
    /// Delegator address.
    pub delegator_address: Address,
    /// Time at which the unbonding began (unix seconds).
    pub start_seconds: i64,
}

/// Queue entry for redelegations.
#[derive(Clone, Copy, Debug)]
pub struct RedelegationEntry {
    /// Source validator address.
    pub src_validator_address: Address,
    /// Destination validator address.
    pub dst_validator_address: Address,
    /// Delegator address in each DVP.
    pub delegator_address: Address,
    /// Time at which the redelegation began (unix seconds).
    pub start_seconds: i64,
}

/// Validator declaration information.
#[derive(Debug)]
pub struct Declaration {
    /// Public key used for consensus.
    pub consensus_key: [u8; 32],
    /// Commission settings.
    pub commission: Commission,
    /// Minimum self-delegation, which may only be increased.
    /// Must be >= `min_self_delegation_min`.
    /// The validator will be removed from the active set if their
    /// self-delegation amount falls below this value.
    pub min_self_delegation: Amount,
    /// Amount to delegate to the validator at declaration. May be zero.
    pub amount: Amount,
    /// Metadata about this validator, typically JSON-encoded in practice. Not
    /// parsed on-chain.
    pub validator_info: Vec<u8>,
}

/// The validator operators and voting power changes that staking reports to
/// consensus, in the order they were reported.
#[derive(Debug)]
pub struct Validators {
    /// Operator addresses assigned to consensus keys.
    pub operators: Vec<([u8; 32], Address)>,
    /// Voting powers set for consensus keys.
    pub voting_power: Vec<([u8; 32], u64)>,
}

impl Validators {
    /// Nothing reported yet.
    pub fn new() -> (r: Self)
        ensures
            r.operators@.len() == 0,
            r.voting_power@.len() == 0,
    {
        Validators { operators: Vec::new(), voting_power: Vec::new() }
    }

    /// Reports the operator address for a consensus key.
    pub fn set_operator(&mut self, consensus_key: [u8; 32], address: Address)
        ensures
            final(self).operators@ == old(self).operators@.push((consensus_key, address)),
            final(self).voting_power@ == old(self).voting_power@,
    {
        self.operators.push((consensus_key, address));
    }

    /// Reports the voting power of a consensus key.
    pub fn set_voting_power(&mut self, consensus_key: [u8; 32], power: u64)
        ensures
            final(self).voting_power@ == old(self).voting_power@.push((consensus_key, power)),
            final(self).operators@ == old(self).operators@,
    {
        self.voting_power.push((consensus_key, power));
    }
}

/// The index of validators by power holds one entry per indexed validator:
/// its address with its last indexed power inverted, and nothing else.
pub open spec fn power_indexed(
    by_power: OrderedMap<ValidatorPowerEntry, ()>,
    last: OrderedMap<Address, u64>,
) -> bool {
    &&& forall|a: Address| #[trigger]
        last.spec_get(a) matches Some(p) ==> has_key(
            by_power.entries@,
            ValidatorPowerEntry { inverted_power: (u64::MAX - p) as u64, address_bytes: a.bytes },
        )
    &&& forall|e: ValidatorPowerEntry| #[trigger]
        has_key(by_power.entries@, e) ==> last.spec_get(Address { bytes: e.address_bytes }) == Some(
            (u64::MAX - e.inverted_power) as u64,
        )
}

/// A vanilla Cosmos-style staking module.
#[derive(Debug)]
pub struct Staking<S: Symbol> {
    /// Validators indexed by operator address.
    pub validators: Pool<Address, Validator<S>, S>,
    /// Minimum self-delegation amount setting for validator declarations.
    pub min_self_delegation_min: u64,
    /// Consensus keys indexed by operator address.
    pub consensus_keys: OrderedMap<Address, [u8; 32]>,
    /// The last block height at which a validator signed.
    pub last_signed_block: OrderedMap<TmHash, u64>,
    /// Index of validator addresses sorted by voting power (descending).
    pub validators_by_power: OrderedMap<ValidatorPowerEntry, ()>,
    /// Voting power of each validator at the previous height.
    pub last_validator_powers: OrderedMap<Address, u64>,
    /// Maximum number of active validators.
    pub max_validators: u64,
    /// Previously reported voting power of each validator for detecting changes
    /// in EndBlock.
    pub last_indexed_power: OrderedMap<Address, u64>,
    /// Index of operator addresses by Tendermint public key hash.
    pub address_for_tm_hash: OrderedMap<TmHash, Address>,
    /// Unbonding period length in seconds.
    pub unbonding_seconds: u64,
    /// Maximum number of blocks a validator can be offline before being jailed.
    pub max_offline_blocks: u64,
    /// Fraction of stake to slash for double signing.
    pub slash_fraction_double_sign: Decimal,
    /// Fraction of stake to slash for downtime.
    pub slash_fraction_downtime: Decimal,
    /// Duration in seconds for which a validator is jailed for downtime.
    pub downtime_jail_seconds: u64,
    /// Queue of validators to transition to the unbonded status.
    pub validator_queue: OrderedMap<ValidatorQueueEntry, ()>,
    /// Queue of unbonding delegations.
    pub unbonding_delegation_queue: Deque<UnbondingDelegationEntry>,
    /// Queue of redelegations.
    pub redelegation_queue: Deque<RedelegationEntry>,
    /// Index of which validators a delegator has delegated to for faster
    /// iteration.
    pub delegation_index: OrderedMap<Address, OrderedMap<Address, ()>>,
}

/// Error if the amount is not positive.
pub fn assert_positive(amount: Amount) -> (r: Result<()>)
    ensures
        amount.value > 0 ==> r is Ok,
        amount.value == 0 ==> fails_with(r, "Amount must be positive"@),
{
    if amount.value > 0 {
        Ok(())
    } else {
        Err(coins_error("Amount must be positive"))
    }
}

/// Restricts the length of the validator's provided metadata at declaration.
pub fn validate_info(info: &Vec<u8>) -> (r: Result<()>)
    ensures
        info@.len() > MAX_INFO_LENGTH ==> fails_with(r, "Validator info too long"@),
        info@.len() <= MAX_INFO_LENGTH ==> r is Ok,
{
    if info.len() > MAX_INFO_LENGTH {
        return Err(coins_error("Validator info too long"));
    }
    Ok(())
}

/// The Tendermint public key hash of a consensus key: the first 20 bytes of
/// its SHA-256.
pub open spec fn tm_hash_of(consensus_key: [u8; 32]) -> Seq<u8> {
    sha256_digest(consensus_key@).take(20)
}

/// Hashes with the same bytes are equal.
pub proof fn lemma_hash_unique(a: TmHash, b: TmHash)
    requires
        a@ == b@,
    ensures
        a == b,
{
    vstd::array::axiom_array_ext_equal(a, b);
    assert forall|i: int| 0 <= i < 20 implies a[i] == b[i] by {
        vstd::array::lemma_array_index(a, i);
        vstd::array::lemma_array_index(b, i);
    }
}

/// Computes the Tendermint public key hash.
pub fn tm_pubkey_hash(consensus_key: [u8; 32]) -> (r: Result<TmHash>)
    ensures
        r matches Ok(h) && h@ == tm_hash_of(consensus_key),
{
    broadcast use vstd::array::lemma_array_index, vstd::array::array_len_matches_n;

    let hash = sha256(&consensus_key);
    let mut out = [0u8; 20];
    let mut i: usize = 0;
    while i < 20
        invariant
            i <= 20,
            hash@ == sha256_digest(consensus_key@),
            forall|j: int| 0 <= j < i ==> out@[j] == hash@[j],
        decreases 20 - i,
    {
        out[i] = hash[i];
        i = i + 1;
    }
    assert(out@ =~= sha256_digest(consensus_key@).take(20));
    Ok(out)
}

impl<S: Symbol> Staking<S> {
    /// The maps, queues, pools and decimals are well-formed, and the power
    /// index mirrors the last indexed powers.
    pub open spec fn wf(&self) -> bool {
        &&& self.validators.wf()
        &&& self.consensus_keys.wf()
        &&& self.last_signed_block.wf()
        &&& self.validators_by_power.wf()
        &&& self.last_validator_powers.wf()
        &&& self.last_indexed_power.wf()
        &&& self.address_for_tm_hash.wf()
        &&& self.slash_fraction_double_sign.wf()
        &&& self.slash_fraction_downtime.wf()
        &&& self.validator_queue.wf()
        &&& self.unbonding_delegation_queue.wf()
        &&& self.redelegation_queue.wf()
        &&& self.delegation_index.wf()
        &&& forall|i: int|
            0 <= i < self.delegation_index.entries@.len() ==> (
            #[trigger] self.delegation_index.entries@[i]).1.wf()
        &&& power_indexed(self.validators_by_power, self.last_indexed_power)
    }

    /// The stake of a delegator with a validator: zero when either has no
    /// entry.
    pub open spec fn stake_with(&self, val_address: Address, delegator_address: Address) -> Decimal {
        match self.validators.map.spec_get(val_address) {
            Some(e) => stake_in(e.inner.delegators, delegator_address),
            None => Decimal::zero_spec(),
        }
    }

    /// The consensus key declared for an operator address, if any.
    pub open spec fn spec_consensus_key(&self, val_address: Address) -> Option<[u8; 32]> {
        self.consensus_keys.spec_get(val_address)
    }

    /// An empty staking module with all settings zero.
    pub fn new() -> (r: Self)
        ensures
            r.wf(),
            r.validators.map.entries@.len() == 0,
            r.consensus_keys.entries@.len() == 0,
            !r.validators.drop_errored,
    {
        let r = Staking {
            validators: Pool::new(),
            min_self_delegation_min: 0,
            consensus_keys: OrderedMap::new(),
            last_signed_block: OrderedMap::new(),
            validators_by_power: OrderedMap::new(),
            last_validator_powers: OrderedMap::new(),
            max_validators: 0,
            last_indexed_power: OrderedMap::new(),
            address_for_tm_hash: OrderedMap::new(),
            unbonding_seconds: 0,
            max_offline_blocks: 0,
            slash_fraction_double_sign: Decimal::zero(),
            slash_fraction_downtime: Decimal::zero(),
            downtime_jail_seconds: 0,
            validator_queue: OrderedMap::new(),
            unbonding_delegation_queue: Deque::new(),
            redelegation_queue: Deque::new(),
            delegation_index: OrderedMap::new(),
        };
        proof {
            assert forall|e: ValidatorPowerEntry| #[trigger]
                has_key(r.validators_by_power.entries@, e) implies false by {}
        }
        r
    }

    /// Query a consensus key by validator operator address.
    pub fn consensus_key(&self, val_address: Address) -> (r: Result<[u8; 32]>)
        requires
            self.wf(),
        ensures
            self.spec_consensus_key(val_address) matches Some(k) ==> r == Ok::<[u8; 32], Error>(k),
            self.spec_consensus_key(val_address) is None ==> fails_with(
                r,
                "Validator is not declared"@,
            ),
    {
        match self.consensus_keys.get(&val_address) {
            Some(key) => Ok(*key),
            None => Err(coins_error("Validator is not declared")),
        }
    }

    /// Get the operator address for a given consensus key.
    pub fn address_by_consensus_key(&self, cons_key: [u8; 32]) -> (r: Result<Option<Address>>)
        requires
            self.wf(),
        ensures
            r matches Ok(o) && exists|h: TmHash|
                h@ == tm_hash_of(cons_key) && o == #[trigger] self.address_for_tm_hash.spec_get(h),
    {
        let tm_hash = tm_pubkey_hash(cons_key)?;
        match self.address_for_tm_hash.get(&tm_hash) {
            Some(address) => Ok(Some(*address)),
            None => Ok(None),
        }
    }

    /// Updates the voting power indices for the validator: its previous
    /// entry in the power index is replaced by one for `power`.
    pub fn set_potential_voting_power(&mut self, address: Address, power: u64) -> (r: Result<()>)
        requires
            old(self).wf(),
        ensures
            r is Ok,
            final(self).wf(),
            final(self).last_indexed_power.spec_get(address) == Some(power),
            forall|a: Address| a != address ==> #[trigger] final(self).last_indexed_power.spec_get(a)
                == old(self).last_indexed_power.spec_get(a),
            final(self).validators == old(self).validators,
            final(self).consensus_keys == old(self).consensus_keys,
            final(self).last_signed_block == old(self).last_signed_block,
            final(self).last_validator_powers == old(self).last_validator_powers,
            final(self).address_for_tm_hash == old(self).address_for_tm_hash,
            final(self).validator_queue == old(self).validator_queue,
            final(self).unbonding_delegation_queue == old(self).unbonding_delegation_queue,
            final(self).redelegation_queue == old(self).redelegation_queue,
            final(self).delegation_index == old(self).delegation_index,
            final(self).settings_same(*old(self)),
    {
        let ghost by0 = self.validators_by_power;
        let ghost last0 = self.last_indexed_power;
        let new_entry = ValidatorPowerEntry {
            address_bytes: address.bytes(),
            inverted_power: u64::MAX - power,
        };
        let mut removed: Option<ValidatorPowerEntry> = None;
        match self.last_indexed_power.get(&address) {
            Some(last_indexed) => {
                let old_entry = ValidatorPowerEntry {
                    address_bytes: address.bytes(),
                    inverted_power: u64::MAX - *last_indexed,
                };
                self.validators_by_power.remove(&old_entry);
                removed = Some(old_entry);
            },
            None => {},
        }
        let ghost by1 = self.validators_by_power;
        self.validators_by_power.insert(new_entry, ());
        self.last_indexed_power.insert(address, power);
        proof {
            let by2 = self.validators_by_power;
            let last2 = self.last_indexed_power;
            assert forall|a: Address| #[trigger] last2.spec_get(a) is Some implies has_key(
                by2.entries@,
                ValidatorPowerEntry {
                    inverted_power: (u64::MAX - last2.spec_get(a)->0) as u64,
                    address_bytes: a.bytes,
                },
            ) by {
                let p = last2.spec_get(a)->0;
                let e = ValidatorPowerEntry { inverted_power: (u64::MAX - p) as u64, address_bytes: a.bytes };
                if a != address {
                    assert(last0.spec_get(a) == Some(p));
                    assert(has_key(by0.entries@, e));
                    match removed {
                        Some(oe) => {
                            assert(oe.address_bytes == address.bytes);
                            if e == oe {
                                assert((Address { bytes: a.bytes }) == a);
                                assert((Address { bytes: address.bytes }) == address);
                            }
                            assert(e != oe);
                        },
                        None => {},
                    }
                    assert(has_key(by1.entries@, e));
                } else {
                    assert(e == new_entry);
                }
            }
            assert forall|e: ValidatorPowerEntry| #[trigger] has_key(by2.entries@, e) implies last2.spec_get(
                Address { bytes: e.address_bytes },
            ) == Some((u64::MAX - e.inverted_power) as u64) by {
                if e != new_entry {
                    assert(has_key(by1.entries@, e));
                    assert(has_key(by0.entries@, e));
                    assert(last0.spec_get(Address { bytes: e.address_bytes }) == Some(
                        (u64::MAX - e.inverted_power) as u64,
                    ));
                    if (Address { bytes: e.address_bytes }) == address {
                        assert(removed is Some);
                        assert(e == removed->0);
                    }
                }
            }
        }
        Ok(())
    }

    /// The settings and slash fractions are those of `other`.
    pub open spec fn settings_same(&self, other: Self) -> bool {
        &&& self.min_self_delegation_min == other.min_self_delegation_min
        &&& self.max_validators == other.max_validators
        &&& self.unbonding_seconds == other.unbonding_seconds
        &&& self.max_offline_blocks == other.max_offline_blocks
        &&& self.slash_fraction_double_sign == other.slash_fraction_double_sign
        &&& self.slash_fraction_downtime == other.slash_fraction_downtime
        &&& self.downtime_jail_seconds == other.downtime_jail_seconds
    }
}

} // verus!

verus! {

/// `v` keeps the stored validator's fields other than its delegators, and
/// each delegator's stake, when one is stored; without one, `v` holds no
/// stake.
pub open spec fn keeps_stored<S: Symbol>(stored: Option<crate::coins::pool::Entry<Validator<S>>>, v: Validator<S>) -> bool {
    &&& stored matches Some(e) ==> v.same_but_delegators(e.inner) && v.same_stakes(e.inner) && v.same_unbonding(e.inner)
    &&& stored is None ==> forall|k: Address| #[trigger] stake_in(v.delegators, k) == Decimal::zero_spec()
    &&& stored is None ==> forall|k: Address| #[trigger] unbonding_in(v.delegators, k).len() == 0
}

impl<S: Symbol> Staking<S> {
    /// Takes a validator out of the pool (brought up to date), to be returned
    /// with the pool's `commit`.
    fn checkout(&mut self, val_address: Address) -> (r: Result<ChildMut<Address, Validator<S>>>)
        requires
            old(self).wf(),
        ensures
            final(self).wf(),
            old(self).validators.drop_errored ==> fails_with(r, "Unhandled pool child drop error"@)
                && *final(self) == *old(self),
            final(self).same_but_validators(*old(self)),
            final(self).validators.drop_errored == old(self).validators.drop_errored,
            forall|k: Address| k != val_address ==> #[trigger] final(self).validators.map.spec_get(k)
                == old(self).validators.map.spec_get(k),
            old(self).validators.get_mut_ok(val_address) ==> r is Ok,
            r matches Ok(child) ==> {
                &&& child.key == val_address
                &&& child.entry.wf()
                &&& child.initial_balance.wf()
                &&& final(self).validators.map.spec_get(val_address) is None
                &&& keeps_stored(old(self).validators.map.spec_get(val_address), child.entry.inner)
            },
    {
        let ghost pre = self.validators;
        let child = self.validators.get_mut(val_address)?;
        proof {
            let (e0, period) = choose|e0: crate::coins::pool::Entry<Validator<S>>, period: Seq<(u8, Decimal)>|
                {
                    &&& #[trigger] crate::coins::pool::stored_or_empty::<Validator<S>, S>(pre.map.spec_get(val_address), e0)
                    &&& #[trigger] crate::coins::pool::adjusted(pre.contributions, pre.shares_issued, period, e0, child.entry)
                };
            super::validator::lemma_adjusted_keeps_validator(pre.contributions, pre.shares_issued, period, e0, child.entry);
        }
        Ok(child)
    }

    /// The fields other than the validators' pool are those of `other`.
    pub open spec fn same_but_validators(&self, other: Self) -> bool {
        &&& self.consensus_keys == other.consensus_keys
        &&& self.last_signed_block == other.last_signed_block
        &&& self.validators_by_power == other.validators_by_power
        &&& self.last_validator_powers == other.last_validator_powers
        &&& self.last_indexed_power == other.last_indexed_power
        &&& self.address_for_tm_hash == other.address_for_tm_hash
        &&& self.validator_queue == other.validator_queue
        &&& self.unbonding_delegation_queue == other.unbonding_delegation_queue
        &&& self.redelegation_queue == other.redelegation_queue
        &&& self.delegation_index == other.delegation_index
        &&& self.settings_same(other)
    }

    /// Returns a validator taken out with [Staking::checkout].
    fn checkin(&mut self, child: ChildMut<Address, Validator<S>>)
        requires
            old(self).wf(),
            child.entry.wf(),
            child.initial_balance.wf(),
        ensures
            final(self).wf(),
            final(self).same_but_validators(*old(self)),
            final(self).validators.map.spec_get(child.key) matches Some(e) && e.inner == child.entry.inner,
            forall|k: Address| k != child.key ==> #[trigger] final(self).validators.map.spec_get(k)
                == old(self).validators.map.spec_get(k),
    {
        self.validators.commit(child);
    }

    /// Recompute the validator's potential voting power and index it.
    pub fn update_vp(&mut self, val_address: Address) -> (r: Result<()>)
        requires
            old(self).wf(),
        ensures
            final(self).wf(),
            old(self).validators.drop_errored ==> fails_with(r, "Unhandled pool child drop error"@)
                && *final(self) == *old(self),
            r is Ok ==> final(self).last_indexed_power.spec_get(val_address) is Some,
            forall|a: Address| a != val_address ==> #[trigger] final(self).last_indexed_power.spec_get(a)
                == old(self).last_indexed_power.spec_get(a),
            forall|k: Address| k != val_address ==> #[trigger] final(self).validators.map.spec_get(k)
                == old(self).validators.map.spec_get(k),
            r is Ok ==> keeps_stored(
                old(self).validators.map.spec_get(val_address),
                final(self).validators.map.spec_get(val_address)->0.inner,
            ),
            r is Ok ==> final(self).validators.map.spec_get(val_address) is Some,
            final(self).consensus_keys == old(self).consensus_keys,
            final(self).last_signed_block == old(self).last_signed_block,
            final(self).last_validator_powers == old(self).last_validator_powers,
            final(self).address_for_tm_hash == old(self).address_for_tm_hash,
            final(self).validator_queue == old(self).validator_queue,
            final(self).unbonding_delegation_queue == old(self).unbonding_delegation_queue,
            final(self).redelegation_queue == old(self).redelegation_queue,
            final(self).delegation_index == old(self).delegation_index,
            final(self).settings_same(*old(self)),
    {
        let mut validator = self.checkout(val_address)?;
        let vp = match validator.entry.inner.potential_vp() {
            Ok(a) => a,
            Err(e) => {
                self.checkin(validator);
                return Err(e);
            },
        };
        self.checkin(validator);
        self.set_potential_voting_power(val_address, vp.value)
    }

    /// Index a delegation for faster iteration.
    pub fn index_delegation(&mut self, val_address: Address, delegator_address: Address) -> (r:
        Result<()>)
        requires
            old(self).wf(),
        ensures
            r is Ok,
            final(self).wf(),
            final(self).delegation_index.spec_get(delegator_address) matches Some(m) && m.spec_get(
                val_address,
            ) == Some(()),
            forall|d: Address| d != delegator_address ==> #[trigger] final(self).delegation_index.spec_get(d)
                == old(self).delegation_index.spec_get(d),
            final(self).validators == old(self).validators,
            final(self).consensus_keys == old(self).consensus_keys,
            final(self).last_signed_block == old(self).last_signed_block,
            final(self).validators_by_power == old(self).validators_by_power,
            final(self).last_validator_powers == old(self).last_validator_powers,
            final(self).last_indexed_power == old(self).last_indexed_power,
            final(self).address_for_tm_hash == old(self).address_for_tm_hash,
            final(self).validator_queue == old(self).validator_queue,
            final(self).unbonding_delegation_queue == old(self).unbonding_delegation_queue,
            final(self).redelegation_queue == old(self).redelegation_queue,
            final(self).settings_same(*old(self)),
    {
        let ghost idx0 = self.delegation_index;
        let mut inner = match self.delegation_index.remove(&delegator_address) {
            Some(m) => {
                proof {
                    let i = choose|i: int| 0 <= i < idx0.entries@.len() && (#[trigger] idx0.entries@[i]).0 == delegator_address;
                    idx0.lemma_value_at(i);
                }
                m
            },
            None => OrderedMap::new(),
        };
        inner.insert(val_address, ());
        let ghost idx1 = self.delegation_index;
        self.delegation_index.insert(delegator_address, inner);
        proof {
            assert forall|i: int| 0 <= i < self.delegation_index.entries@.len() implies (
            #[trigger] self.delegation_index.entries@[i]).1.wf() by {
                let k = self.delegation_index.entries@[i].0;
                self.delegation_index.lemma_value_at(i);
                if k != delegator_address {
                    assert(idx1.spec_get(k) == idx0.spec_get(k));
                    let j = choose|j: int| 0 <= j < idx0.entries@.len() && (#[trigger] idx0.entries@[j]).0 == k;
                    idx0.lemma_value_at(j);
                }
            }
        }
        Ok(())
    }

    /// Total amount staked across all validators: the validators' pool
    /// contributions as an amount.
    pub fn staked(&self) -> (r: Result<Amount>)
        requires
            self.wf(),
        ensures
            self.validators.contributions.amount_post(r),
    {
        self.validators.contributions.amount()
    }
}

} // verus!

verus! {

impl<S: Symbol> Staking<S> {
    /// Initiate a new delegation: the coins are added to the delegator's
    /// stake with the validator, the delegation is indexed, and the
    /// validator's voting power is updated.
    ///
    /// Refused for an undeclared validator ("Validator is not declared") and
    /// for a tombstoned one ("Cannot delegate to a tombstoned validator").
    pub fn delegate(&mut self, val_address: Address, delegator_address: Address, coins: Coin<S>) -> (r:
        Result<()>)
        requires
            old(self).wf(),
        ensures
            final(self).wf(),
            old(self).spec_consensus_key(val_address) is None ==> fails_with(
                r,
                "Validator is not declared"@,
            ) && *final(self) == *old(self),
            old(self).spec_consensus_key(val_address) is Some ==> {
                &&& old(self).validators.drop_errored ==> fails_with(
                    r,
                    "Unhandled pool child drop error"@,
                ) && *final(self) == *old(self)
                &&& (old(self).validators.map.spec_get(val_address) matches Some(e)
                    && e.inner.tombstoned && old(self).validators.get_mut_ok(val_address)) ==> {
                    &&& fails_with(r, "Cannot delegate to a tombstoned validator"@)
                    &&& final(self).same_but_validators(*old(self))
                    &&& forall|v: Address, d: Address| #[trigger] final(self).stake_with(v, d) == old(self).stake_with(v, d)
                }
                &&& (old(self).validators.map.spec_get(val_address) matches Some(e)
                    && e.inner.tombstoned) ==> r is Err
                &&& r is Ok ==> {
                    &&& final(self).delegation_index.spec_get(delegator_address) matches Some(m)
                        && m.spec_get(val_address) == Some(())
                    &&& final(self).last_indexed_power.spec_get(val_address) is Some
                    &&& add_spec(
                        Decimal::from_u64_spec(coins.amount.value),
                        old(self).stake_with(val_address, delegator_address),
                    ) == Ok::<Decimal, Error>(final(self).stake_with(val_address, delegator_address))
                    &&& forall|d: Address| d != delegator_address ==> #[trigger] final(self).stake_with(
                        val_address,
                        d,
                    ) == old(self).stake_with(val_address, d)
                    &&& forall|v: Address| v != val_address ==> #[trigger] final(self).validators.map.spec_get(v)
                        == old(self).validators.map.spec_get(v)
                }
            },
            final(self).consensus_keys == old(self).consensus_keys,
            final(self).address_for_tm_hash == old(self).address_for_tm_hash,
            final(self).settings_same(*old(self)),
    {
        let _ = self.consensus_key(val_address)?;
        let ghost s0 = *self;
        let mut validator = self.checkout(val_address)?;
        if validator.entry.inner.tombstoned {
            let ghost ve = validator.entry.inner;
            self.checkin(validator);
            proof {
                assert forall|v: Address, d: Address| #[trigger] self.stake_with(v, d) == s0.stake_with(v, d) by {
                    if v == val_address {
                        assert(self.stake_with(v, d) == stake_in(ve.delegators, d));
                        if let Some(e) = s0.validators.map.spec_get(v) {
                            assert(stake_in(ve.delegators, d) == stake_in(e.inner.delegators, d));
                        }
                    }
                }
            }
            return Err(coins_error("Cannot delegate to a tombstoned validator"));
        }
        let ghost p1 = validator.entry.inner.delegators;
        assert forall|k: Address| #[trigger] stake_in(p1, k) == s0.stake_with(val_address, k) by {
            if let Some(e) = s0.validators.map.spec_get(val_address) {
                assert(stake_in(p1, k) == stake_in(e.inner.delegators, k));
            }
        }
        let mut delegator = match validator.entry.inner.delegators.get_mut(delegator_address) {
            Ok(d) => d,
            Err(e) => {
                self.checkin(validator);
                return Err(e);
            },
        };
        proof {
            let (e0, period) = choose|e0: crate::coins::pool::Entry<Delegator<S>>, period: Seq<(u8, Decimal)>|
                {
                    &&& #[trigger] crate::coins::pool::stored_or_empty::<Delegator<S>, S>(
                        p1.map.spec_get(delegator_address),
                        e0,
                    )
                    &&& #[trigger] crate::coins::pool::adjusted(p1.contributions, p1.shares_issued, period, e0, delegator.entry)
                };
            super::validator::lemma_adjusted_keeps_stake(p1.contributions, p1.shares_issued, period, e0, delegator.entry);
            assert(delegator.entry.inner.staked.shares == stake_in(p1, delegator_address));
        }
        let res = delegator.entry.inner.add_stake(coins);
        validator.entry.inner.delegators.commit(delegator);
        let ghost v1 = validator.entry.inner;
        self.checkin(validator);
        res?;
        let ghost s1 = *self;
        proof {
            assert forall|d: Address| d != delegator_address implies #[trigger] s1.stake_with(val_address, d)
                == s0.stake_with(val_address, d) by {
                assert(stake_in(v1.delegators, d) == stake_in(p1, d));
            }
        }
        self.index_delegation(val_address, delegator_address)?;
        let r = self.update_vp(val_address);
        proof {
            if r is Ok {
                assert(s1.validators.map.spec_get(val_address) matches Some(e) && e.inner == v1);
                assert forall|k: Address| #[trigger] self.stake_with(val_address, k) == stake_in(
                    v1.delegators,
                    k,
                ) by {}
                assert forall|d: Address| d != delegator_address implies #[trigger] self.stake_with(
                    val_address,
                    d,
                ) == s0.stake_with(val_address, d) by {
                    assert(self.stake_with(val_address, d) == stake_in(v1.delegators, d));
                    assert(s1.stake_with(val_address, d) == stake_in(v1.delegators, d));
                    assert(s1.stake_with(val_address, d) == s0.stake_with(val_address, d));
                }
            }
        }
        r
    }

    /// Validate a declaration and initialize a new validator. `coins` is the
    /// validator's initial self-delegation, and must be at least the
    /// declaration's minimum self-delegation.
    ///
    /// The checks, in order, each with its error: the validator is not yet
    /// declared; the coins cover the minimum self-delegation; the info is
    /// short enough; the consensus key is not in use; `0 <= rate <= max`;
    /// `0 <= max <= 1`; `0 <= max_change <= max`; the minimum
    /// self-delegation is at least the module's minimum. Then the consensus
    /// key is recorded and reported with its operator, the validator's
    /// settings are stored, and the coins are delegated by the validator to
    /// itself.
    pub fn declare(
        &mut self,
        val_address: Address,
        declaration: Declaration,
        coins: Coin<S>,
        val_ctx: &mut Validators,
    ) -> (r: Result<()>)
        requires
            old(self).wf(),
            declaration.commission.wf(),
        ensures
            final(self).wf(),
            ({
                let d = declaration;
                let declared = has_key(old(self).consensus_keys.entries@, val_address);
                let zero = Decimal::zero_spec();
                let one = Decimal::from_u64_spec(1);
                let c = d.commission;
                let hash_in_use = exists|h: TmHash| h@ == tm_hash_of(d.consensus_key) && #[trigger] has_key(old(self).address_for_tm_hash.entries@, h);
                let refusal: Option<Seq<char>> = if declared {
                    Some("Validator is already declared"@)
                } else if coins.amount.value < d.min_self_delegation.value {
                    Some("Insufficient self-delegation"@)
                } else if d.validator_info@.len() > MAX_INFO_LENGTH {
                    Some("Validator info too long"@)
                } else if hash_in_use {
                    Some("Tendermint public key is already in use"@)
                } else if c.rate.less_than(zero) || c.max.less_than(c.rate) {
                    Some("Initial commission must be between 0 and max commission"@)
                } else if c.max.less_than(zero) || one.less_than(c.max) {
                    Some("Max commission must be between 0 and 1"@)
                } else if c.max_change.less_than(zero) || c.max.less_than(c.max_change) {
                    Some("Max commission change must be between 0 and max commission"@)
                } else if d.min_self_delegation.value < old(self).min_self_delegation_min {
                    Some("Min self-delegation setting is too small"@)
                } else {
                    None
                };
                &&& refusal matches Some(msg) ==> fails_with(r, msg) && *final(self) == *old(self)
                    && *final(val_ctx) == *old(val_ctx)
                &&& refusal is None ==> {
                    &&& final(self).consensus_keys.spec_get(val_address) == Some(d.consensus_key)
                    &&& exists|h: TmHash| h@ == tm_hash_of(d.consensus_key) && #[trigger] final(self).address_for_tm_hash.spec_get(h) == Some(val_address)
                    &&& final(val_ctx).operators@ == old(val_ctx).operators@.push(
                        (d.consensus_key, val_address),
                    )
                }
            }),
    {
        let Declaration { min_self_delegation, consensus_key, commission, validator_info, .. } =
            declaration;
        let declared = self.consensus_keys.contains_key(&val_address);
        if declared {
            return Err(coins_error("Validator is already declared"));
        }
        if coins.amount.value < min_self_delegation.value {
            return Err(coins_error("Insufficient self-delegation"));
        }
        validate_info(&validator_info)?;
        let tm_hash = tm_pubkey_hash(consensus_key)?;
        let tm_hash_exists = self.address_for_tm_hash.contains_key(&tm_hash);
        proof {
            if !tm_hash_exists {
                assert forall|h: TmHash| h@ == tm_hash_of(consensus_key) implies !#[trigger] has_key(
                    old(self).address_for_tm_hash.entries@,
                    h,
                ) by {
                    assert(h@ =~= tm_hash@);
                    vstd::array::axiom_array_ext_equal(h, tm_hash);
                    assert forall|i: int| 0 <= i < 20 implies h[i] == tm_hash[i] by {
                        vstd::array::lemma_array_index(h, i);
                        vstd::array::lemma_array_index(tm_hash, i);
                    }
                }
            }
        }
        if tm_hash_exists {
            return Err(coins_error("Tendermint public key is already in use"));
        }
        let zero = Decimal::zero();
        let one = Decimal::from_u64(1);
        if commission.rate.lt(&zero) || commission.rate.gt(&commission.max) {
            return Err(coins_error("Initial commission must be between 0 and max commission"));
        }
        if commission.max.lt(&zero) || commission.max.gt(&one) {
            return Err(coins_error("Max commission must be between 0 and 1"));
        }
        if commission.max_change.lt(&zero) || commission.max_change.gt(&commission.max) {
            return Err(
                coins_error("Max commission change must be between 0 and max commission"),
            );
        }
        if min_self_delegation.value < self.min_self_delegation_min {
            return Err(coins_error("Min self-delegation setting is too small"));
        }
        self.consensus_keys.insert(val_address, consensus_key);
        self.address_for_tm_hash.insert(tm_hash, val_address);
        val_ctx.set_operator(consensus_key, val_address);
        let ghost keys_after = self.consensus_keys;
        let ghost hashes_after = self.address_for_tm_hash;
        let mut validator = match self.checkout(val_address) {
            Ok(v) => v,
            Err(e) => {
                return Err(e);
            },
        };
        validator.entry.inner.commission = commission;
        validator.entry.inner.min_self_delegation = min_self_delegation;
        validator.entry.inner.address = val_address;
        validator.entry.inner.info = validator_info;
        validator.entry.inner.last_edited_seconds = -2147483648i64;
        self.checkin(validator);
        let r = self.delegate(val_address, val_address, coins);
        assert(self.consensus_keys == keys_after);
        r
    }
}

} // verus!

verus! {

/// The start time that an unbond or redelegation from a validator with the
/// given status gets: now while bonded, the validator's own unbonding start
/// while unbonding, and none (immediate) once unbonded.
pub open spec fn start_for(status: Status, now: i64) -> Option<i64> {
    match status {
        Status::Bonded => Some(now),
        Status::Unbonding { start_seconds } => Some(start_seconds),
        Status::Unbonded => None,
    }
}

/// The status of a stored validator.
pub open spec fn stored_status<S: Symbol>(v: Validator<S>) -> Status {
    status_of(v.unbonding, v.in_active_set, v.unbonding_start_seconds)
}

/// None of the refusals of an edit applies to the stored validator `v`: its
/// self-delegation is a whole amount covering the new minimum, the minimum
/// does not decrease, the commission lies between zero and the maximum and
/// differs from the current rate by at most the maximum change, the info is
/// short enough, and the last edit is at least the edit interval ago.
pub open spec fn edit_allowed<S: Symbol>(
    v: Validator<S>,
    commission: Decimal,
    min_self_delegation: Amount,
    info: Seq<u8>,
    now: i64,
) -> bool {
    &&& v.self_stake().amount_spec() is Some
    &&& min_self_delegation.value <= v.self_stake().amount_spec()->0.value
    &&& v.min_self_delegation.value <= min_self_delegation.value
    &&& !commission.less_than(Decimal::zero_spec())
    &&& !v.commission.max.less_than(commission)
    &&& info.len() <= MAX_INFO_LENGTH
    &&& sub_spec(commission, v.commission.rate) is Ok
    &&& !v.commission.max_change.less_than(
        Decimal { negative: false, ..sub_spec(commission, v.commission.rate)->Ok_0 },
    )
    &&& now - EDIT_INTERVAL_SECONDS >= v.last_edited_seconds
}

impl<S: Symbol> Staking<S> {
    /// Edit a validator's metadata or fee policy.
    ///
    /// Refused when the new minimum self-delegation exceeds the current
    /// self-delegation or is below the previous setting, when the commission
    /// is outside `[0, max]` or changes by more than the max change, when the
    /// info is too long, or within a day of the last edit.
    pub fn edit_validator(
        &mut self,
        val_address: Address,
        commission: Decimal,
        min_self_delegation: Amount,
        validator_info: Vec<u8>,
        now: i64,
    ) -> (r: Result<()>)
        requires
            old(self).wf(),
            commission.wf(),
            now >= i64::MIN + EDIT_INTERVAL_SECONDS,
        ensures
            final(self).wf(),
            final(self).same_but_validators(*old(self)),
            old(self).validators.map.spec_get(val_address) matches Some(e) ==> {
                &&& e.inner.self_stake().amount_spec() is None ==> r is Err
                &&& (e.inner.self_stake().amount_spec() matches Some(a) && a.value
                    < min_self_delegation.value) ==> r is Err
                &&& min_self_delegation.value < e.inner.min_self_delegation.value ==> r is Err
                &&& (commission.less_than(Decimal::zero_spec()) || e.inner.commission.max.less_than(commission)) ==> r is Err
                &&& validator_info@.len() > MAX_INFO_LENGTH ==> r is Err
                &&& sub_spec(commission, e.inner.commission.rate) is Err ==> r is Err
                &&& (sub_spec(commission, e.inner.commission.rate) matches Ok(d)
                    && e.inner.commission.max_change.less_than(Decimal { negative: false, ..d })) ==> r is Err
                &&& now - EDIT_INTERVAL_SECONDS < e.inner.last_edited_seconds ==> r is Err
                &&& old(self).validators.get_mut_ok(val_address) && edit_allowed(
                    e.inner,
                    commission,
                    min_self_delegation,
                    validator_info@,
                    now,
                ) ==> r is Ok
                &&& r is Err && old(self).validators.get_mut_ok(val_address) ==> {
                    &&& final(self).validators.map.spec_get(val_address) is Some
                    &&& keeps_stored(
                        old(self).validators.map.spec_get(val_address),
                        final(self).validators.map.spec_get(val_address)->0.inner,
                    )
                }
            },
            r is Ok ==> (final(self).validators.map.spec_get(val_address) matches Some(e) && {
                &&& e.inner.commission.rate == commission
                &&& e.inner.min_self_delegation == min_self_delegation
                &&& e.inner.info@ == validator_info@
                &&& e.inner.last_edited_seconds == now
            }),
    {
        let ghost s0 = *self;
        let mut validator = self.checkout(val_address)?;
        proof {
            if let Some(e) = s0.validators.map.spec_get(val_address) {
                assert(stake_in(validator.entry.inner.delegators, e.inner.address) == stake_in(
                    e.inner.delegators,
                    e.inner.address,
                ));
                assert(validator.entry.inner.self_stake() == e.inner.self_stake());
            }
        }
        let self_delegation = match validator.entry.inner.self_delegation() {
            Ok(a) => a,
            Err(e) => {
                self.checkin(validator);
                return Err(e);
            },
        };
        if self_delegation.value < min_self_delegation.value {
            self.checkin(validator);
            return Err(coins_error("Min self-delegation cannot exceed current staked amount"));
        }
        if min_self_delegation.value < validator.entry.inner.min_self_delegation.value {
            self.checkin(validator);
            return Err(coins_error("Min self-delegation setting may not decrease"));
        }
        let zero = Decimal::zero();
        if commission.lt(&zero) || commission.gt(&validator.entry.inner.commission.max) {
            self.checkin(validator);
            return Err(coins_error("Commission must be between 0 and max commission"));
        }
        match validate_info(&validator_info) {
            Ok(()) => {},
            Err(e) => {
                self.checkin(validator);
                return Err(e);
            },
        }
        let diff = match commission.checked_sub(validator.entry.inner.commission.rate) {
            Ok(d) => d,
            Err(e) => {
                self.checkin(validator);
                return Err(e);
            },
        };
        let change = diff.abs();
        if change.gt(&validator.entry.inner.commission.max_change) {
            self.checkin(validator);
            return Err(
                coins_error(
                    "Commission change is greater than the validator's commission max change setting",
                ),
            );
        }
        if now - (EDIT_INTERVAL_SECONDS as i64) < validator.entry.inner.last_edited_seconds {
            self.checkin(validator);
            return Err(coins_error("Validators may only be edited once per 24 hours"));
        }
        validator.entry.inner.commission.rate = commission;
        validator.entry.inner.info = validator_info;
        validator.entry.inner.min_self_delegation = min_self_delegation;
        validator.entry.inner.last_edited_seconds = now;
        self.checkin(validator);
        Ok(())
    }
}

} // verus!

verus! {

impl<S: Symbol> Staking<S> {
    /// Initiate an unbond of staking tokens. The unbond's start time is now
    /// while the validator is bonded, the validator's own unbonding start
    /// while it unbonds, and none once it is unbonded, which resolves the
    /// unbond immediately. A timed unbond is also queued in the module's
    /// unbonding queue.
    pub fn unbond(&mut self, validator_address: Address, delegator_address: Address, amount: Amount, now: i64) -> (r:
        Result<()>)
        requires
            old(self).wf(),
        ensures
            final(self).wf(),
            old(self).validators.drop_errored ==> fails_with(r, "Unhandled pool child drop error"@)
                && *final(self) == *old(self),
            final(self).consensus_keys == old(self).consensus_keys,
            final(self).settings_same(*old(self)),
            r is Ok ==> (old(self).validators.map.spec_get(validator_address) matches Some(e) ==>
                final(self).unbonding_delegation_queue@ == match start_for(stored_status(e.inner), now) {
                    Some(start) => old(self).unbonding_delegation_queue@.push(
                        UnbondingDelegationEntry { delegator_address, validator_address, start_seconds: start },
                    ),
                    None => old(self).unbonding_delegation_queue@,
                }),
            r is Ok ==> (old(self).validators.map.spec_get(validator_address) matches Some(e) ==> {
                &&& final(self).validators.map.spec_get(validator_address) is Some
                &&& unbonding_in(
                    final(self).validators.map.spec_get(validator_address)->0.inner.delegators,
                    delegator_address,
                ) == match start_for(stored_status(e.inner), now) {
                    Some(start) => unbonding_in(e.inner.delegators, delegator_address).push(
                        Unbond {
                            coins: Share { shares: Decimal::from_u64_spec(amount.value), symbol: core::marker::PhantomData },
                            start_seconds: start,
                        },
                    ),
                    None => unbonding_in(e.inner.delegators, delegator_address),
                }
            }),
            take_shares(old(self).stake_with(validator_address, delegator_address), amount) is None
                ==> r is Err,
            r is Ok ==> {
                &&& take_shares(old(self).stake_with(validator_address, delegator_address), amount)
                    == Some(Ok::<Decimal, Error>(final(self).stake_with(validator_address, delegator_address)))
                &&& forall|d: Address| d != delegator_address ==> #[trigger] final(self).stake_with(
                    validator_address,
                    d,
                ) == old(self).stake_with(validator_address, d)
                &&& forall|v: Address| v != validator_address ==> #[trigger] final(self).validators.map.spec_get(v)
                    == old(self).validators.map.spec_get(v)
            },
    {
        let ghost s0 = *self;
        let mut validator = self.checkout(validator_address)?;
        let start_seconds = match validator.entry.inner.status() {
            Status::Bonded => Some(now),
            Status::Unbonding { start_seconds } => Some(start_seconds),
            Status::Unbonded => None,
        };
        let ghost p1 = validator.entry.inner.delegators;
        assert forall|k: Address| #[trigger] stake_in(p1, k) == s0.stake_with(validator_address, k) by {
            if let Some(e) = s0.validators.map.spec_get(validator_address) {
                assert(stake_in(p1, k) == stake_in(e.inner.delegators, k));
            }
        }
        let mut delegator = match validator.entry.inner.delegators.get_mut(delegator_address) {
            Ok(d) => d,
            Err(e) => {
                self.checkin(validator);
                return Err(e);
            },
        };
        proof {
            let (e0, period) = choose|e0: crate::coins::pool::Entry<Delegator<S>>, period: Seq<(u8, Decimal)>|
                {
                    &&& #[trigger] crate::coins::pool::stored_or_empty::<Delegator<S>, S>(
                        p1.map.spec_get(delegator_address),
                        e0,
                    )
                    &&& #[trigger] crate::coins::pool::adjusted(p1.contributions, p1.shares_issued, period, e0, delegator.entry)
                };
            super::validator::lemma_adjusted_keeps_stake(p1.contributions, p1.shares_issued, period, e0, delegator.entry);
            assert(delegator.entry.inner.staked.shares == stake_in(p1, delegator_address));
            assert(delegator.entry.inner.unbonding@ == unbonding_in(p1, delegator_address));
        }
        let res = if delegator.entry.inner.unbonding.meta.tail == u64::MAX {
            Err(coins_error("Unbonding queue is full"))
        } else {
            delegator.entry.inner.unbond(amount, start_seconds)
        };
        validator.entry.inner.delegators.commit(delegator);
        let ghost v1 = validator.entry.inner;
        self.checkin(validator);
        res?;
        let ghost s1 = *self;
        proof {
            assert forall|d: Address| d != delegator_address implies #[trigger] s1.stake_with(validator_address, d)
                == s0.stake_with(validator_address, d) by {
                assert(stake_in(v1.delegators, d) == stake_in(p1, d));
            }
        }
        if let Some(start_seconds) = start_seconds {
            if self.unbonding_delegation_queue.meta.tail == u64::MAX {
                return Err(coins_error("Unbonding queue is full"));
            }
            self.unbonding_delegation_queue.push_back(
                UnbondingDelegationEntry { delegator_address, validator_address, start_seconds },
            )?;
        }
        let ghost queue = self.unbonding_delegation_queue;
        let r = self.update_vp(validator_address);
        assert(self.unbonding_delegation_queue == queue);
        proof {
            if r is Ok {
                assert(s1.validators.map.spec_get(validator_address) matches Some(e) && e.inner == v1);
                assert(unbonding_in(self.validators.map.spec_get(validator_address)->0.inner.delegators, delegator_address)
                    == unbonding_in(v1.delegators, delegator_address));
                assert forall|d: Address| #[trigger] self.stake_with(validator_address, d) == s1.stake_with(
                    validator_address,
                    d,
                ) by {
                    assert(self.stake_with(validator_address, d) == stake_in(v1.delegators, d));
                    assert(s1.stake_with(validator_address, d) == stake_in(v1.delegators, d));
                }
            }
        }
        r
    }

    /// Redelegate staked tokens from one validator to another.
    ///
    /// Refused to the same validator, to an undeclared or tombstoned one, and
    /// to one that is not bonded. The coins leave the source delegation (with
    /// the source's start time, as for an unbond) and join the destination
    /// delegation; a timed redelegation is also queued.
    pub fn redelegate(
        &mut self,
        src_validator_address: Address,
        dst_validator_address: Address,
        delegator_address: Address,
        amount: Amount,
        now: i64,
    ) -> (r: Result<()>)
        requires
            old(self).wf(),
        ensures
            final(self).wf(),
            src_validator_address == dst_validator_address ==> fails_with(
                r,
                "Cannot redelegate to the same validator"@,
            ) && *final(self) == *old(self),
            final(self).consensus_keys == old(self).consensus_keys,
            final(self).settings_same(*old(self)),
            old(self).spec_consensus_key(dst_validator_address) is None ==> r is Err,
            (old(self).validators.map.spec_get(dst_validator_address) matches Some(e) && (
            e.inner.tombstoned || stored_status(e.inner) != Status::Bonded)) ==> r is Err,
            r is Ok ==> {
                &&& final(self).delegation_index.spec_get(delegator_address) matches Some(m)
                    && m.spec_get(dst_validator_address) == Some(())
                &&& old(self).validators.map.spec_get(src_validator_address) matches Some(e)
                    ==> final(self).redelegation_queue@ == match start_for(stored_status(e.inner), now) {
                    Some(start) => old(self).redelegation_queue@.push(
                        RedelegationEntry {
                            src_validator_address,
                            dst_validator_address,
                            delegator_address,
                            start_seconds: start,
                        },
                    ),
                    None => old(self).redelegation_queue@,
                }
            },
            src_validator_address != dst_validator_address && take_shares(
                old(self).stake_with(src_validator_address, delegator_address),
                amount,
            ) is None ==> r is Err,
            r is Ok ==> {
                &&& take_shares(old(self).stake_with(src_validator_address, delegator_address), amount)
                    == Some(Ok::<Decimal, Error>(final(self).stake_with(src_validator_address, delegator_address)))
                &&& add_spec(
                    Decimal::from_u64_spec(amount.value),
                    old(self).stake_with(dst_validator_address, delegator_address),
                ) == Ok::<Decimal, Error>(final(self).stake_with(dst_validator_address, delegator_address))
                &&& forall|d: Address| d != delegator_address ==> #[trigger] final(self).stake_with(
                    src_validator_address,
                    d,
                ) == old(self).stake_with(src_validator_address, d)
                &&& forall|d: Address| d != delegator_address ==> #[trigger] final(self).stake_with(
                    dst_validator_address,
                    d,
                ) == old(self).stake_with(dst_validator_address, d)
                &&& forall|v: Address| v != src_validator_address && v != dst_validator_address
                    ==> #[trigger] final(self).validators.map.spec_get(v) == old(self).validators.map.spec_get(v)
            },
    {
        if src_validator_address.key_eq(&dst_validator_address) {
            return Err(coins_error("Cannot redelegate to the same validator"));
        }
        let ghost s0 = *self;
        let mut src_validator = self.checkout(src_validator_address)?;
        let start_seconds = match src_validator.entry.inner.status() {
            Status::Bonded => Some(now),
            Status::Unbonding { start_seconds } => Some(start_seconds),
            Status::Unbonded => None,
        };
        let ghost p1 = src_validator.entry.inner.delegators;
        assert forall|k: Address| #[trigger] stake_in(p1, k) == s0.stake_with(src_validator_address, k) by {
            if let Some(e) = s0.validators.map.spec_get(src_validator_address) {
                assert(stake_in(p1, k) == stake_in(e.inner.delegators, k));
            }
        }
        let mut src_delegator = match src_validator.entry.inner.delegators.get_mut(delegator_address) {
            Ok(d) => d,
            Err(e) => {
                self.checkin(src_validator);
                return Err(e);
            },
        };
        proof {
            let (e0, period) = choose|e0: crate::coins::pool::Entry<Delegator<S>>, period: Seq<(u8, Decimal)>|
                {
                    &&& #[trigger] crate::coins::pool::stored_or_empty::<Delegator<S>, S>(
                        p1.map.spec_get(delegator_address),
                        e0,
                    )
                    &&& #[trigger] crate::coins::pool::adjusted(p1.contributions, p1.shares_issued, period, e0, src_delegator.entry)
                };
            super::validator::lemma_adjusted_keeps_stake(p1.contributions, p1.shares_issued, period, e0, src_delegator.entry);
            assert(src_delegator.entry.inner.staked.shares == stake_in(p1, delegator_address));
        }
        let out = if src_delegator.entry.inner.redelegations_out.meta.tail == u64::MAX {
            Err(coins_error("Redelegation queue is full"))
        } else {
            src_delegator.entry.inner.redelegate_out(dst_validator_address, amount, start_seconds)
        };
        src_validator.entry.inner.delegators.commit(src_delegator);
        let ghost v1 = src_validator.entry.inner;
        self.checkin(src_validator);
        let coins = out?;
        let _ = self.consensus_key(dst_validator_address)?;
        let ghost s1 = *self;
        let mut dst_validator = self.checkout(dst_validator_address)?;
        if dst_validator.entry.inner.tombstoned {
            self.checkin(dst_validator);
            return Err(coins_error("Cannot redelegate to a tombstoned validator"));
        }
        match dst_validator.entry.inner.status() {
            Status::Bonded => {},
            _ => {
                self.checkin(dst_validator);
                return Err(coins_error("Cannot redelegate to an unbonding or unbonded validator"));
            },
        }
        let ghost q1 = dst_validator.entry.inner.delegators;
        assert forall|k: Address| #[trigger] stake_in(q1, k) == s0.stake_with(dst_validator_address, k) by {
            assert(s1.validators.map.spec_get(dst_validator_address) == s0.validators.map.spec_get(
                dst_validator_address,
            ));
            if let Some(e) = s1.validators.map.spec_get(dst_validator_address) {
                assert(stake_in(q1, k) == stake_in(e.inner.delegators, k));
            }
        }
        let mut dst_delegator = match dst_validator.entry.inner.delegators.get_mut(delegator_address) {
            Ok(d) => d,
            Err(e) => {
                self.checkin(dst_validator);
                return Err(e);
            },
        };
        proof {
            let (e0, period) = choose|e0: crate::coins::pool::Entry<Delegator<S>>, period: Seq<(u8, Decimal)>|
                {
                    &&& #[trigger] crate::coins::pool::stored_or_empty::<Delegator<S>, S>(
                        q1.map.spec_get(delegator_address),
                        e0,
                    )
                    &&& #[trigger] crate::coins::pool::adjusted(q1.contributions, q1.shares_issued, period, e0, dst_delegator.entry)
                };
            super::validator::lemma_adjusted_keeps_stake(q1.contributions, q1.shares_issued, period, e0, dst_delegator.entry);
            assert(dst_delegator.entry.inner.staked.shares == stake_in(q1, delegator_address));
        }
        let res = if dst_delegator.entry.inner.redelegations_in.meta.tail == u64::MAX {
            Err(coins_error("Redelegation queue is full"))
        } else {
            dst_delegator.entry.inner.redelegate_in(src_validator_address, coins, start_seconds)
        };
        dst_validator.entry.inner.delegators.commit(dst_delegator);
        let ghost w1 = dst_validator.entry.inner;
        self.checkin(dst_validator);
        res?;
        let ghost s2 = *self;
        if let Some(start_seconds) = start_seconds {
            if self.redelegation_queue.meta.tail == u64::MAX {
                return Err(coins_error("Redelegation queue is full"));
            }
            self.redelegation_queue.push_back(
                RedelegationEntry {
                    src_validator_address,
                    dst_validator_address,
                    delegator_address,
                    start_seconds,
                },
            )?;
        }
        let ghost queue = self.redelegation_queue;
        self.index_delegation(dst_validator_address, delegator_address)?;
        let ghost index = self.delegation_index;
        self.update_vp(src_validator_address)?;
        let ghost s3 = *self;
        let r = self.update_vp(dst_validator_address);
        assert(self.redelegation_queue == queue);
        assert(self.delegation_index == index);
        proof {
            if r is Ok {
                assert(s2.validators.map.spec_get(src_validator_address) matches Some(e) && e.inner == v1);
                assert(s2.validators.map.spec_get(dst_validator_address) matches Some(e) && e.inner == w1);
                assert forall|d: Address| #[trigger] self.stake_with(src_validator_address, d) == stake_in(
                    v1.delegators,
                    d,
                ) by {
                    assert(s3.stake_with(src_validator_address, d) == stake_in(v1.delegators, d));
                }
                assert forall|d: Address| #[trigger] self.stake_with(dst_validator_address, d) == stake_in(
                    w1.delegators,
                    d,
                ) by {
                    assert(s3.validators.map.spec_get(dst_validator_address) == s2.validators.map.spec_get(
                        dst_validator_address,
                    ));
                }
                assert forall|d: Address| d != delegator_address implies #[trigger] self.stake_with(
                    src_validator_address,
                    d,
                ) == s0.stake_with(src_validator_address, d) by {
                    assert(self.stake_with(src_validator_address, d) == stake_in(v1.delegators, d));
                    assert(stake_in(v1.delegators, d) == stake_in(p1, d));
                }
                assert forall|d: Address| d != delegator_address implies #[trigger] self.stake_with(
                    dst_validator_address,
                    d,
                ) == s0.stake_with(dst_validator_address, d) by {
                    assert(self.stake_with(dst_validator_address, d) == stake_in(w1.delegators, d));
                    assert(stake_in(w1.delegators, d) == stake_in(q1, d));
                }
                assert(self.stake_with(src_validator_address, delegator_address) == stake_in(
                    v1.delegators,
                    delegator_address,
                ));
                assert(self.stake_with(dst_validator_address, delegator_address) == stake_in(
                    w1.delegators,
                    delegator_address,
                ));
            }
        }
        r
    }

    /// Deduct liquid funds of the provided denom from a single delegation
    /// entry, after processing its matured unbonds.
    pub fn deduct(&mut self, val_address: Address, delegator_address: Address, amount: Amount, denom: u8, now: i64) -> (r:
        Result<()>)
        requires
            old(self).wf(),
        ensures
            final(self).wf(),
            old(self).validators.drop_errored ==> fails_with(r, "Unhandled pool child drop error"@)
                && *final(self) == *old(self),
            final(self).same_but_validators(*old(self)),
            r is Ok ==> {
                &&& forall|v: Address, d: Address| #[trigger] final(self).stake_with(v, d) == old(self).stake_with(v, d)
                &&& forall|v: Address| v != val_address ==> #[trigger] final(self).validators.map.spec_get(v)
                    == old(self).validators.map.spec_get(v)
            },
    {
        let ghost s0 = *self;
        let mut validator = self.checkout(val_address)?;
        let ghost p1 = validator.entry.inner.delegators;
        assert forall|k: Address| #[trigger] stake_in(p1, k) == s0.stake_with(val_address, k) by {
            if let Some(e) = s0.validators.map.spec_get(val_address) {
                assert(stake_in(p1, k) == stake_in(e.inner.delegators, k));
            }
        }
        let mut delegator = match validator.entry.inner.delegators.get_mut(delegator_address) {
            Ok(d) => d,
            Err(e) => {
                self.checkin(validator);
                return Err(e);
            },
        };
        proof {
            let (e0, period) = choose|e0: crate::coins::pool::Entry<Delegator<S>>, period: Seq<(u8, Decimal)>|
                {
                    &&& #[trigger] crate::coins::pool::stored_or_empty::<Delegator<S>, S>(
                        p1.map.spec_get(delegator_address),
                        e0,
                    )
                    &&& #[trigger] crate::coins::pool::adjusted(p1.contributions, p1.shares_issued, period, e0, delegator.entry)
                };
            super::validator::lemma_adjusted_keeps_stake(p1.contributions, p1.shares_issued, period, e0, delegator.entry);
        }
        let res = match delegator.entry.inner.process_unbonds(now) {
            Ok(()) => delegator.entry.inner.deduct(amount, denom),
            Err(e) => Err(e),
        };
        validator.entry.inner.delegators.commit(delegator);
        let ghost v1 = validator.entry.inner;
        self.checkin(validator);
        proof {
            assert forall|v: Address, d: Address| #[trigger] self.stake_with(v, d) == s0.stake_with(v, d) by {
                if v == val_address {
                    assert(self.stake_with(v, d) == stake_in(v1.delegators, d));
                    assert(stake_in(v1.delegators, d) == stake_in(p1, d));
                }
            }
        }
        res
    }
}

} // verus!

verus! {

/// The stored validator is jailed until `until` and, when `tombstoned`, is
/// tombstoned.
pub open spec fn stored_jailed<S: Symbol>(
    stored: Option<crate::coins::pool::Entry<Validator<S>>>,
    until: Option<i64>,
) -> bool {
    stored matches Some(e) && (until matches Some(t) ==> e.inner.jailed_until == Some(t))
        && e.inner.jailed_until is Some
}

impl<S: Symbol> Staking<S> {
    /// Slash and jail a validator for extended downtime: it is jailed for the
    /// downtime jail period and its stake is slashed by the downtime
    /// fraction (a liveness fault).
    pub fn punish_downtime(&mut self, val_address: Address, now: i64) -> (r: Result<()>)
        requires
            old(self).wf(),
            i64::MIN <= now + (old(self).downtime_jail_seconds as i64) <= i64::MAX,
        ensures
            final(self).wf(),
            old(self).validators.drop_errored ==> fails_with(r, "Unhandled pool child drop error"@)
                && *final(self) == *old(self),
            final(self).address_for_tm_hash == old(self).address_for_tm_hash,
            final(self).last_signed_block == old(self).last_signed_block,
            final(self).consensus_keys == old(self).consensus_keys,
            final(self).settings_same(*old(self)),
            r is Ok ==> stored_jailed(final(self).validators.map.spec_get(val_address), None),
            forall|k: Address| k != val_address ==> #[trigger] final(self).validators.map.spec_get(k)
                == old(self).validators.map.spec_get(k),
    {
        let mut validator = self.checkout(val_address)?;
        let _ = validator.entry.inner.jail_for_seconds(now, self.downtime_jail_seconds);
        let res = validator.entry.inner.slash(self.slash_fraction_downtime, true);
        self.checkin(validator);
        res?;
        self.update_vp(val_address)
    }

    /// Slash a validator for double signing, preventing it from re-entering
    /// the active validator set indefinitely: it is jailed forever and
    /// tombstoned, its stake is slashed by the double-sign fraction, and each
    /// of its delegators' outbound redelegations is slashed at its
    /// destination by the same fraction of the redelegated amount.
    pub fn punish_double_sign(&mut self, val_address: Address) -> (r: Result<()>)
        requires
            old(self).wf(),
        ensures
            final(self).wf(),
            old(self).validators.drop_errored ==> fails_with(r, "Unhandled pool child drop error"@)
                && *final(self) == *old(self),
            final(self).address_for_tm_hash == old(self).address_for_tm_hash,
            final(self).last_signed_block == old(self).last_signed_block,
            final(self).consensus_keys == old(self).consensus_keys,
            final(self).settings_same(*old(self)),
            r is Ok ==> stored_jailed(final(self).validators.map.spec_get(val_address), Some(i64::MAX)),
    {
        let mut validator = self.checkout(val_address)?;
        validator.entry.inner.jail_forever();
        let res = validator.entry.inner.slash(self.slash_fraction_double_sign, false);
        self.checkin(validator);
        let redelegations = res?;
        let one = Decimal::from_u64(1);
        let multiplier = one.checked_sub(self.slash_fraction_double_sign)?;
        let mut i: usize = 0;
        while i < redelegations.len()
            invariant
                self.wf(),
                !old(self).validators.drop_errored,
                multiplier.wf(),
                self.address_for_tm_hash == old(self).address_for_tm_hash,
                self.last_signed_block == old(self).last_signed_block,
                self.consensus_keys == old(self).consensus_keys,
                self.settings_same(*old(self)),
                stored_jailed(self.validators.map.spec_get(val_address), Some(i64::MAX)),
            decreases redelegations@.len() - i,
        {
            let entry = &redelegations[i];
            let del_address = entry.delegator_address;
            let mut j: usize = 0;
            while j < entry.outbound_redelegations.len()
                invariant
                    self.wf(),
                    !old(self).validators.drop_errored,
                    multiplier.wf(),
                    self.address_for_tm_hash == old(self).address_for_tm_hash,
                    self.last_signed_block == old(self).last_signed_block,
                    self.consensus_keys == old(self).consensus_keys,
                    self.settings_same(*old(self)),
                    stored_jailed(self.validators.map.spec_get(val_address), Some(i64::MAX)),
                decreases entry.outbound_redelegations@.len() - j,
            {
                let redelegation = entry.outbound_redelegations[j];
                let mut dst = self.checkout(redelegation.address)?;
                let mut delegator = match dst.entry.inner.delegators.get_mut(del_address) {
                    Ok(d) => d,
                    Err(e) => {
                        self.checkin(dst);
                        return Err(e);
                    },
                };
                let res = match multiplier.mul_amount(redelegation.amount) {
                    Ok(d) => match d.amount() {
                        Ok(a) => delegator.entry.inner.slash_redelegation(a),
                        Err(e) => Err(e),
                    },
                    Err(e) => Err(e),
                };
                dst.entry.inner.delegators.commit(delegator);
                self.checkin(dst);
                res?;
                j = j + 1;
            }
            i = i + 1;
        }
        self.update_vp(val_address)
    }

    /// Slash a validator for a light client attack, with the same punishment
    /// as double signing.
    pub fn punish_light_client_attack(&mut self, val_address: Address) -> (r: Result<()>)
        requires
            old(self).wf(),
        ensures
            final(self).wf(),
            final(self).address_for_tm_hash == old(self).address_for_tm_hash,
            final(self).last_signed_block == old(self).last_signed_block,
            final(self).consensus_keys == old(self).consensus_keys,
            final(self).settings_same(*old(self)),
            r is Ok ==> stored_jailed(final(self).validators.map.spec_get(val_address), Some(i64::MAX)),
    {
        self.punish_double_sign(val_address)
    }

    /// Attempt to unjail the signer's validator, restoring it to the active
    /// set if eligible.
    pub fn unjail(&mut self, signer: Option<Address>, now: i64) -> (r: Result<()>)
        requires
            old(self).wf(),
        ensures
            final(self).wf(),
            signer is None ==> fails_with(r, "Call must be signed"@) && *final(self) == *old(self),
            final(self).consensus_keys == old(self).consensus_keys,
            final(self).settings_same(*old(self)),
            signer matches Some(s) ==> (old(self).validators.map.spec_get(s) matches Some(e) ==> {
                &&& e.inner.jailed_until is None ==> r is Err
                &&& (e.inner.jailed_until matches Some(t) && now <= t) ==> r is Err
            }),
            signer matches Some(s) ==> (r is Ok ==> (final(self).validators.map.spec_get(s) matches Some(e)
                && e.inner.jailed_until is None)),
    {
        let signer = match signer {
            Some(s) => s,
            None => {
                return Err(coins_error("Call must be signed"));
            },
        };
        let mut validator = self.checkout(signer)?;
        let res = validator.entry.inner.try_unjail(now);
        self.checkin(validator);
        res?;
        self.update_vp(signer)
    }
}

} // verus!

verus! {

/// `start` is at least `secs` seconds before `now`.
pub open spec fn matured_by(now: i64, start: i64, secs: u64) -> bool {
    now - start >= secs
}

/// Whether `start` is at least `secs` seconds before `now`.
pub fn is_matured_by(now: i64, start: i64, secs: u64) -> (r: bool)
    ensures
        r == matured_by(now, start, secs),
{
    (now as i128) - (start as i128) >= secs as i128
}

/// The number of unbonding entries at the front of the queue that have
/// matured.
pub open spec fn matured_unbond_entries(q: Seq<UnbondingDelegationEntry>, now: i64, secs: u64) -> nat
    decreases q.len(),
{
    if q.len() > 0 && matured_by(now, q[0].start_seconds, secs) {
        1 + matured_unbond_entries(q.drop_first(), now, secs)
    } else {
        0
    }
}

/// The number of redelegation entries at the front of the queue that have
/// matured.
pub open spec fn matured_redelegation_entries(q: Seq<RedelegationEntry>, now: i64, secs: u64) -> nat
    decreases q.len(),
{
    if q.len() > 0 && matured_by(now, q[0].start_seconds, secs) {
        1 + matured_redelegation_entries(q.drop_first(), now, secs)
    } else {
        0
    }
}

impl<S: Symbol> Staking<S> {
    /// Transition a validator to the unbonded state.
    pub fn transition_to_unbonded(&mut self, val_address: Address) -> (r: Result<()>)
        requires
            old(self).wf(),
        ensures
            final(self).wf(),
            final(self).same_but_validators(*old(self)),
            old(self).validators.drop_errored ==> r is Err && *final(self) == *old(self),
            old(self).validators.get_mut_ok(val_address) ==> r is Ok,
            r is Ok ==> (final(self).validators.map.spec_get(val_address) matches Some(e)
                && !e.inner.unbonding),
    {
        let mut validator = self.checkout(val_address)?;
        validator.entry.inner.unbonding = false;
        self.checkin(validator);
        Ok(())
    }

    /// Removes every validator queue entry of the given operator address.
    pub fn remove_by_address(&mut self, address: Address) -> (r: Result<()>)
        requires
            old(self).wf(),
        ensures
            r is Ok,
            final(self).wf(),
            forall|e: ValidatorQueueEntry| #[trigger] has_key(final(self).validator_queue.entries@, e)
                == (has_key(old(self).validator_queue.entries@, e) && e.address_bytes
                != address.bytes),
            final(self).validators == old(self).validators,
            final(self).consensus_keys == old(self).consensus_keys,
            final(self).last_signed_block == old(self).last_signed_block,
            final(self).validators_by_power == old(self).validators_by_power,
            final(self).last_validator_powers == old(self).last_validator_powers,
            final(self).last_indexed_power == old(self).last_indexed_power,
            final(self).address_for_tm_hash == old(self).address_for_tm_hash,
            final(self).unbonding_delegation_queue == old(self).unbonding_delegation_queue,
            final(self).redelegation_queue == old(self).redelegation_queue,
            final(self).delegation_index == old(self).delegation_index,
            final(self).settings_same(*old(self)),
    {
        let mut matching: Vec<ValidatorQueueEntry> = Vec::new();
        let n = self.validator_queue.entries.len();
        let mut i: usize = 0;
        while i < n
            invariant
                n == self.validator_queue.entries@.len(),
                i <= n,
                forall|j: int| 0 <= j < matching@.len() ==> (#[trigger] matching@[j]).address_bytes == address.bytes
                    && has_key(self.validator_queue.entries@, matching@[j]),
                forall|j: int| 0 <= j < i && self.validator_queue.entries@[j].0.address_bytes == address.bytes
                    ==> #[trigger] matching@.contains(self.validator_queue.entries@[j].0),
            decreases n - i,
        {
            let entry = self.validator_queue.entries[i].0;
            let ghost old_matching = matching@;
            if (Address { bytes: entry.address_bytes }).same(&address) {
                proof {
                    vstd::array::axiom_array_ext_equal(entry.address_bytes, address.bytes);
                    assert forall|t: int| 0 <= t < 20 implies entry.address_bytes[t] == address.bytes[t] by {
                        vstd::array::lemma_array_index(entry.address_bytes, t);
                        vstd::array::lemma_array_index(address.bytes, t);
                    }
                    assert(has_key(self.validator_queue.entries@, entry));
                }
                matching.push(entry);
            }
            proof {
                assert forall|j: int| 0 <= j < i + 1 && self.validator_queue.entries@[j].0.address_bytes == address.bytes
                    implies #[trigger] matching@.contains(self.validator_queue.entries@[j].0) by {
                    if j < i {
                        assert(old_matching.contains(self.validator_queue.entries@[j].0));
                        let m = choose|m: int| 0 <= m < old_matching.len() && old_matching[m] == self.validator_queue.entries@[j].0;
                        assert(matching@[m] == self.validator_queue.entries@[j].0);
                    } else {
                        assert(matching@[matching@.len() - 1] == entry);
                    }
                }
            }
            i = i + 1;
        }
        let ghost q0 = self.validator_queue;
        let mut k: usize = 0;
        while k < matching.len()
            invariant
                self.wf(),
                self.validators == old(self).validators,
                self.consensus_keys == old(self).consensus_keys,
                self.last_signed_block == old(self).last_signed_block,
                self.validators_by_power == old(self).validators_by_power,
                self.last_validator_powers == old(self).last_validator_powers,
                self.last_indexed_power == old(self).last_indexed_power,
                self.address_for_tm_hash == old(self).address_for_tm_hash,
                self.unbonding_delegation_queue == old(self).unbonding_delegation_queue,
                self.redelegation_queue == old(self).redelegation_queue,
                self.delegation_index == old(self).delegation_index,
                self.settings_same(*old(self)),
                k <= matching@.len(),
                forall|j: int| 0 <= j < matching@.len() ==> (#[trigger] matching@[j]).address_bytes == address.bytes,
                forall|j: int| 0 <= j < q0.entries@.len() && q0.entries@[j].0.address_bytes == address.bytes
                    ==> #[trigger] matching@.contains(q0.entries@[j].0),
                forall|e: ValidatorQueueEntry| #[trigger] has_key(self.validator_queue.entries@, e) ==> has_key(q0.entries@, e),
                forall|e: ValidatorQueueEntry| has_key(q0.entries@, e) && e.address_bytes != address.bytes
                    ==> #[trigger] has_key(self.validator_queue.entries@, e),
                forall|j: int| 0 <= j < k ==> !has_key(self.validator_queue.entries@, #[trigger] matching@[j]),
            decreases matching@.len() - k,
        {
            let e = matching[k];
            self.validator_queue.remove(&e);
            k = k + 1;
        }
        proof {
            assert forall|e: ValidatorQueueEntry| #[trigger] has_key(self.validator_queue.entries@, e)
                implies e.address_bytes != address.bytes by {
                if e.address_bytes == address.bytes {
                    let j = choose|j: int| 0 <= j < q0.entries@.len() && (#[trigger] q0.entries@[j]).0 == e;
                    assert(matching@.contains(q0.entries@[j].0));
                    let m = choose|m: int| 0 <= m < matching@.len() && matching@[m] == e;
                    assert(!has_key(self.validator_queue.entries@, matching@[m]));
                }
            }
        }
        Ok(())
    }

    /// Transition a validator to the bonded state, removing it from the
    /// validator queue.
    pub fn transition_to_bonded(&mut self, val_address: Address) -> (r: Result<()>)
        requires
            old(self).wf(),
        ensures
            final(self).wf(),
            old(self).validators.drop_errored ==> r is Err && *final(self) == *old(self),
            old(self).validators.get_mut_ok(val_address) ==> r is Ok,
            r is Ok ==> (final(self).validators.map.spec_get(val_address) matches Some(e)
                && !e.inner.unbonding),
            r is Ok ==> forall|e: ValidatorQueueEntry| #[trigger] has_key(final(self).validator_queue.entries@, e)
                == (has_key(old(self).validator_queue.entries@, e) && e.address_bytes
                != val_address.bytes),
            final(self).last_validator_powers == old(self).last_validator_powers,
            final(self).validators_by_power == old(self).validators_by_power,
            final(self).last_indexed_power == old(self).last_indexed_power,
            final(self).last_signed_block == old(self).last_signed_block,
            final(self).consensus_keys == old(self).consensus_keys,
            final(self).settings_same(*old(self)),
            forall|k: Address| k != val_address ==> #[trigger] final(self).validators.map.spec_get(k)
                == old(self).validators.map.spec_get(k),
            r is Ok ==> (old(self).validators.map.spec_get(val_address) matches Some(e)
                ==> final(self).validators.map.spec_get(val_address)->0.inner.in_active_set == e.inner.in_active_set),
    {
        let mut validator = self.checkout(val_address)?;
        validator.entry.inner.unbonding = false;
        self.checkin(validator);
        self.remove_by_address(val_address)
    }

    /// Transition a validator to the unbonding state, starting now, and
    /// queue it for the unbonded state.
    pub fn transition_to_unbonding(&mut self, val_address: Address, now: i64) -> (r: Result<()>)
        requires
            old(self).wf(),
        ensures
            final(self).wf(),
            old(self).validators.drop_errored ==> r is Err && *final(self) == *old(self),
            old(self).validators.get_mut_ok(val_address) ==> r is Ok,
            r is Ok ==> (final(self).validators.map.spec_get(val_address) matches Some(e)
                && e.inner.unbonding && e.inner.unbonding_start_seconds == now),
            r is Ok ==> has_key(
                final(self).validator_queue.entries@,
                ValidatorQueueEntry { start_seconds: now, address_bytes: val_address.bytes },
            ),
            final(self).last_validator_powers == old(self).last_validator_powers,
            final(self).validators_by_power == old(self).validators_by_power,
            final(self).last_indexed_power == old(self).last_indexed_power,
            final(self).last_signed_block == old(self).last_signed_block,
            final(self).consensus_keys == old(self).consensus_keys,
            final(self).settings_same(*old(self)),
            forall|k: Address| k != val_address ==> #[trigger] final(self).validators.map.spec_get(k)
                == old(self).validators.map.spec_get(k),
            r is Ok ==> (old(self).validators.map.spec_get(val_address) matches Some(e)
                ==> final(self).validators.map.spec_get(val_address)->0.inner.in_active_set == e.inner.in_active_set),
    {
        let mut validator = self.checkout(val_address)?;
        validator.entry.inner.unbonding = true;
        validator.entry.inner.unbonding_start_seconds = now;
        self.checkin(validator);
        self.validator_queue.insert(
            ValidatorQueueEntry { start_seconds: now, address_bytes: val_address.bytes() },
            (),
        );
        Ok(())
    }
}

} // verus!

verus! {

impl<S: Symbol> Staking<S> {
    /// Process the validator queue: every validator whose unbonding started
    /// at least the unbonding period ago transitions to the unbonded state
    /// and leaves the queue.
    pub fn process_validator_queue(&mut self, now: i64) -> (r: Result<()>)
        requires
            old(self).wf(),
        ensures
            final(self).wf(),
            final(self).consensus_keys == old(self).consensus_keys,
            final(self).validators_by_power == old(self).validators_by_power,
            final(self).last_validator_powers == old(self).last_validator_powers,
            final(self).last_signed_block == old(self).last_signed_block,
            final(self).settings_same(*old(self)),
            r is Ok ==> {
                &&& forall|e: ValidatorQueueEntry| #[trigger] has_key(final(self).validator_queue.entries@, e)
                    ==> has_key(old(self).validator_queue.entries@, e) && !matured_by(
                    now,
                    e.start_seconds,
                    old(self).unbonding_seconds,
                )
                &&& forall|e: ValidatorQueueEntry| #[trigger] has_key(old(self).validator_queue.entries@, e)
                    && !matured_by(now, e.start_seconds, old(self).unbonding_seconds) ==> has_key(
                    final(self).validator_queue.entries@,
                    e,
                )
            },
            final(self).unbonding_delegation_queue == old(self).unbonding_delegation_queue,
            final(self).redelegation_queue == old(self).redelegation_queue,
            (forall|e: ValidatorQueueEntry| #[trigger] has_key(old(self).validator_queue.entries@, e)
                ==> !matured_by(now, e.start_seconds, old(self).unbonding_seconds)) ==> r is Ok && *final(self)
                == *old(self),
    {
        let ghost q0 = self.validator_queue;
        loop
            invariant
                self.wf(),
                (forall|e: ValidatorQueueEntry| #[trigger] has_key(q0.entries@, e)
                    ==> !matured_by(now, e.start_seconds, old(self).unbonding_seconds)) ==> *self == *old(self),
                self.unbonding_delegation_queue == old(self).unbonding_delegation_queue,
                self.redelegation_queue == old(self).redelegation_queue,
                self.consensus_keys == old(self).consensus_keys,
                self.validators_by_power == old(self).validators_by_power,
                self.last_validator_powers == old(self).last_validator_powers,
                self.last_signed_block == old(self).last_signed_block,
                self.settings_same(*old(self)),
                forall|e: ValidatorQueueEntry| #[trigger] has_key(self.validator_queue.entries@, e)
                    ==> has_key(q0.entries@, e),
                forall|e: ValidatorQueueEntry| #[trigger] has_key(q0.entries@, e) && !matured_by(
                    now,
                    e.start_seconds,
                    old(self).unbonding_seconds,
                ) ==> has_key(self.validator_queue.entries@, e),
                q0 == old(self).validator_queue,
            decreases self.validator_queue.entries@.len(),
        {
            if self.validator_queue.entries.len() == 0 {
                return Ok(());
            }
            let entry = self.validator_queue.entries[0].0;
            if !is_matured_by(now, entry.start_seconds, self.unbonding_seconds) {
                proof {
                    assert forall|e: ValidatorQueueEntry| #[trigger] has_key(self.validator_queue.entries@, e)
                        implies !matured_by(now, e.start_seconds, old(self).unbonding_seconds) by {
                        let j = choose|j: int| 0 <= j < self.validator_queue.entries@.len() && (#[trigger] self.validator_queue.entries@[j]).0 == e;
                        if j > 0 {
                            assert(self.validator_queue.entries@[0].0.key_lt(self.validator_queue.entries@[j].0));
                        }
                    }
                }
                return Ok(());
            }
            let ghost len0 = self.validator_queue.entries@.len();
            proof {
                assert(has_key(self.validator_queue.entries@, entry));
            }
            self.transition_to_unbonded(Address { bytes: entry.address_bytes })?;
            self.validator_queue.remove(&entry);
            proof {
                assert(!has_key(self.validator_queue.entries@, entry));
            }
        }
    }
}

} // verus!

verus! {

impl<S: Symbol> Staking<S> {
    /// Processes the matured unbonds at the front of the unbonding queue: each
    /// leaves the queue, and its delegation processes its own matured
    /// unbonds.
    pub fn process_unbonding_delegation_queue(&mut self, now: i64) -> (r: Result<()>)
        requires
            old(self).wf(),
        ensures
            final(self).wf(),
            final(self).consensus_keys == old(self).consensus_keys,
            final(self).redelegation_queue == old(self).redelegation_queue,
            final(self).validators_by_power == old(self).validators_by_power,
            final(self).last_validator_powers == old(self).last_validator_powers,
            final(self).last_signed_block == old(self).last_signed_block,
            final(self).settings_same(*old(self)),
            r is Ok ==> final(self).unbonding_delegation_queue@ == old(self).unbonding_delegation_queue@.skip(
                matured_unbond_entries(
                    old(self).unbonding_delegation_queue@,
                    now,
                    old(self).unbonding_seconds,
                ) as int,
            ),
            final(self).validator_queue == old(self).validator_queue,
            matured_unbond_entries(old(self).unbonding_delegation_queue@, now, old(self).unbonding_seconds) == 0
                ==> r is Ok && *final(self) == *old(self),
    {
        let ghost q0 = self.unbonding_delegation_queue@;
        let ghost mut popped: int = 0;
        loop
            invariant_except_break
                popped == 0 ==> *self == *old(self),
                0 <= popped <= q0.len(),
                self.unbonding_delegation_queue@ == q0.skip(popped),
                matured_unbond_entries(q0, now, old(self).unbonding_seconds) == popped
                    + matured_unbond_entries(self.unbonding_delegation_queue@, now, old(self).unbonding_seconds),
            invariant
                self.wf(),
                q0 == old(self).unbonding_delegation_queue@,
                self.consensus_keys == old(self).consensus_keys,
                self.validators_by_power == old(self).validators_by_power,
                self.last_validator_powers == old(self).last_validator_powers,
                self.last_signed_block == old(self).last_signed_block,
                self.redelegation_queue == old(self).redelegation_queue,
                self.validator_queue == old(self).validator_queue,
                self.settings_same(*old(self)),
            ensures
                self.unbonding_delegation_queue@ == q0.skip(
                    matured_unbond_entries(q0, now, old(self).unbonding_seconds) as int,
                ),
                matured_unbond_entries(q0, now, old(self).unbonding_seconds) == 0 ==> *self == *old(self),
            decreases self.unbonding_delegation_queue@.len(),
        {
            let unbond = match self.unbonding_delegation_queue.front() {
                Some(u) => *u,
                None => {
                    break ;
                },
            };
            if !is_matured_by(now, unbond.start_seconds, self.unbonding_seconds) {
                break ;
            }
            let ghost before = self.unbonding_delegation_queue@;
            let _ = self.unbonding_delegation_queue.pop_front();
            proof {
                assert(before.drop_first() =~= self.unbonding_delegation_queue@);
                assert(self.unbonding_delegation_queue@ =~= q0.skip(popped + 1));
                popped = popped + 1;
            }
            let mut validator = self.checkout(unbond.validator_address)?;
            let mut delegator = match validator.entry.inner.delegators.get_mut(unbond.delegator_address) {
                Ok(d) => d,
                Err(e) => {
                    self.checkin(validator);
                    return Err(e);
                },
            };
            let res = delegator.entry.inner.process_unbonds(now);
            validator.entry.inner.delegators.commit(delegator);
            self.checkin(validator);
            res?;
        }
        Ok(())
    }

    /// Processes the matured redelegations at the front of the redelegation
    /// queue: each leaves the queue, its source delegation processes its
    /// outbound redelegations and its destination its inbound ones.
    pub fn process_redelegation_queue(&mut self, now: i64) -> (r: Result<()>)
        requires
            old(self).wf(),
        ensures
            final(self).wf(),
            final(self).consensus_keys == old(self).consensus_keys,
            final(self).unbonding_delegation_queue == old(self).unbonding_delegation_queue,
            final(self).validators_by_power == old(self).validators_by_power,
            final(self).last_validator_powers == old(self).last_validator_powers,
            final(self).last_signed_block == old(self).last_signed_block,
            final(self).settings_same(*old(self)),
            r is Ok ==> final(self).redelegation_queue@ == old(self).redelegation_queue@.skip(
                matured_redelegation_entries(
                    old(self).redelegation_queue@,
                    now,
                    old(self).unbonding_seconds,
                ) as int,
            ),
            final(self).validator_queue == old(self).validator_queue,
            matured_redelegation_entries(old(self).redelegation_queue@, now, old(self).unbonding_seconds) == 0
                ==> r is Ok && *final(self) == *old(self),
    {
        let ghost q0 = self.redelegation_queue@;
        let ghost mut popped: int = 0;
        loop
            invariant_except_break
                popped == 0 ==> *self == *old(self),
                0 <= popped <= q0.len(),
                self.redelegation_queue@ == q0.skip(popped),
                matured_redelegation_entries(q0, now, old(self).unbonding_seconds) == popped
                    + matured_redelegation_entries(self.redelegation_queue@, now, old(self).unbonding_seconds),
            invariant
                self.wf(),
                q0 == old(self).redelegation_queue@,
                self.consensus_keys == old(self).consensus_keys,
                self.validators_by_power == old(self).validators_by_power,
                self.last_validator_powers == old(self).last_validator_powers,
                self.last_signed_block == old(self).last_signed_block,
                self.unbonding_delegation_queue == old(self).unbonding_delegation_queue,
                self.validator_queue == old(self).validator_queue,
                self.settings_same(*old(self)),
            ensures
                self.redelegation_queue@ == q0.skip(
                    matured_redelegation_entries(q0, now, old(self).unbonding_seconds) as int,
                ),
                matured_redelegation_entries(q0, now, old(self).unbonding_seconds) == 0 ==> *self == *old(self),
            decreases self.redelegation_queue@.len(),
        {
            let redelegation = match self.redelegation_queue.front() {
                Some(u) => *u,
                None => {
                    break ;
                },
            };
            if !is_matured_by(now, redelegation.start_seconds, self.unbonding_seconds) {
                break ;
            }
            let ghost before = self.redelegation_queue@;
            let _ = self.redelegation_queue.pop_front();
            proof {
                assert(before.drop_first() =~= self.redelegation_queue@);
                assert(self.redelegation_queue@ =~= q0.skip(popped + 1));
                popped = popped + 1;
            }
            let mut src_validator = self.checkout(redelegation.src_validator_address)?;
            let mut src_delegator = match src_validator.entry.inner.delegators.get_mut(
                redelegation.delegator_address,
            ) {
                Ok(d) => d,
                Err(e) => {
                    self.checkin(src_validator);
                    return Err(e);
                },
            };
            let res = src_delegator.entry.inner.process_redelegations_out(now);
            src_validator.entry.inner.delegators.commit(src_delegator);
            self.checkin(src_validator);
            res?;
            let mut dst_validator = self.checkout(redelegation.dst_validator_address)?;
            let mut dst_delegator = match dst_validator.entry.inner.delegators.get_mut(
                redelegation.delegator_address,
            ) {
                Ok(d) => d,
                Err(e) => {
                    self.checkin(dst_validator);
                    return Err(e);
                },
            };
            let res = dst_delegator.entry.inner.process_redelegations_in(now);
            dst_validator.entry.inner.delegators.commit(dst_delegator);
            self.checkin(dst_validator);
            res?;
        }
        Ok(())
    }

    /// Repairs state data left invalid by an earlier migration: validators
    /// without info are removed, and both delegation queues are emptied.
    pub fn repair(&mut self) -> (r: Result<()>)
        requires
            old(self).wf(),
        ensures
            final(self).wf(),
            forall|a: Address| #[trigger] final(self).validators.map.spec_get(a) == match old(self).validators.map.spec_get(a) {
                Some(e) => if e.inner.info@.len() == 0 {
                    None
                } else {
                    Some(e)
                },
                None => None,
            },
            *final(self) == (Staking {
                validators: Pool { map: final(self).validators.map, ..old(self).validators },
                unbonding_delegation_queue: final(self).unbonding_delegation_queue,
                redelegation_queue: final(self).redelegation_queue,
                ..*old(self)
            }),
            r is Ok ==> final(self).unbonding_delegation_queue@.len() == 0 && final(self).redelegation_queue@.len() == 0,
    {
        let ghost m0 = self.validators.map;
        let mut addresses: Vec<Address> = Vec::new();
        let mut i: usize = 0;
        while i < self.validators.map.entries.len()
            invariant
                self.validators.map == m0,
                m0.wf(),
                i <= m0.entries@.len(),
                forall|j: int| 0 <= j < addresses@.len() ==> (m0.spec_get(#[trigger] addresses@[j]) matches Some(
                    e,
                ) && e.inner.info@.len() == 0),
                forall|t: int|
                    0 <= t < i && (#[trigger] m0.entries@[t]).1.inner.info@.len() == 0
                        ==> addresses@.contains(m0.entries@[t].0),
            decreases m0.entries@.len() - i,
        {
            proof {
                m0.lemma_value_at(i as int);
            }
            if self.validators.map.entries[i].1.inner.info.len() == 0 {
                let ghost a0 = addresses@;
                addresses.push(self.validators.map.entries[i].0);
                proof {
                    assert forall|t: int|
                        0 <= t < i + 1 && (#[trigger] m0.entries@[t]).1.inner.info@.len() == 0
                            implies addresses@.contains(m0.entries@[t].0) by {
                        if t < i {
                            let j = choose|j: int| 0 <= j < a0.len() && a0[j] == m0.entries@[t].0;
                            assert(addresses@[j] == a0[j]);
                        } else {
                            assert(addresses@[addresses@.len() - 1] == m0.entries@[t].0);
                        }
                    }
                }
            }
            i = i + 1;
        }
        let mut k: usize = 0;
        while k < addresses.len()
            invariant
                self.wf(),
                k <= addresses@.len(),
                *self == (Staking { validators: Pool { map: self.validators.map, ..old(self).validators }, ..*old(self) }),
                forall|j: int| 0 <= j < addresses@.len() ==> (m0.spec_get(#[trigger] addresses@[j]) matches Some(
                    e,
                ) && e.inner.info@.len() == 0),
                forall|a: Address| #[trigger] self.validators.map.spec_get(a) == if addresses@.take(
                    k as int,
                ).contains(a) {
                    None
                } else {
                    m0.spec_get(a)
                },
            decreases addresses@.len() - k,
        {
            let a = addresses[k];
            let ghost before = self.validators.map;
            self.validators.map.remove(&a);
            proof {
                assert forall|j: int| 0 <= j < self.validators.map.entries@.len() implies (
                #[trigger] self.validators.map.entries@[j]).1.wf() by {
                    let key = self.validators.map.entries@[j].0;
                    self.validators.map.lemma_value_at(j);
                    assert(before.spec_get(key) == Some(self.validators.map.entries@[j].1));
                    let t = choose|t: int| 0 <= t < before.entries@.len() && (#[trigger] before.entries@[t]).0 == key;
                    before.lemma_value_at(t);
                }
                assert forall|x: Address| #[trigger] self.validators.map.spec_get(x) == if addresses@.take(
                    k + 1,
                ).contains(x) {
                    None
                } else {
                    m0.spec_get(x)
                } by {
                    assert(addresses@.take(k + 1) =~= addresses@.take(k as int).push(a));
                    assert(addresses@.take(k + 1)[k as int] == a);
                    if addresses@.take(k as int).contains(x) {
                        let j = choose|j: int| 0 <= j < k && addresses@.take(k as int)[j] == x;
                        assert(addresses@.take(k + 1)[j] == x);
                    }
                    if addresses@.take(k + 1).contains(x) && x != a {
                        let j = choose|j: int| 0 <= j < k + 1 && #[trigger] addresses@.take(k + 1)[j] == x;
                        assert(addresses@.take(k as int)[j] == x);
                    }
                }
            }
            k = k + 1;
        }
        proof {
            assert(addresses@.take(addresses@.len() as int) =~= addresses@);
            assert forall|a: Address| #[trigger] self.validators.map.spec_get(a) == match m0.spec_get(a) {
                Some(e) => if e.inner.info@.len() == 0 {
                    None
                } else {
                    Some(e)
                },
                None => None,
            } by {
                if addresses@.contains(a) {
                    let j = choose|j: int| 0 <= j < addresses@.len() && addresses@[j] == a;
                    assert(m0.spec_get(addresses@[j]) matches Some(e) && e.inner.info@.len() == 0);
                }
                if m0.spec_get(a) matches Some(e) && e.inner.info@.len() == 0 {
                    assert(has_key(m0.entries@, a));
                    let t = choose|t: int| 0 <= t < m0.entries@.len() && (#[trigger] m0.entries@[t]).0 == a;
                    m0.lemma_value_at(t);
                }
            }
        }
        self.unbonding_delegation_queue.retain_unordered(keep_none::<UnbondingDelegationEntry>)?;
        proof {
            if self.unbonding_delegation_queue@.len() > 0 {
                assert(call_ensures(
                    keep_none::<UnbondingDelegationEntry>,
                    (&self.unbonding_delegation_queue@[0],),
                    Ok::<bool, Error>(true),
                ));
            }
        }
        self.redelegation_queue.retain_unordered(keep_none::<RedelegationEntry>)?;
        proof {
            if self.redelegation_queue@.len() > 0 {
                assert(call_ensures(
                    keep_none::<RedelegationEntry>,
                    (&self.redelegation_queue@[0],),
                    Ok::<bool, Error>(true),
                ));
            }
        }
        Ok(())
    }

    /// Steps the queues (once per block) for validator status transitions,
    /// unbonding delegations and redelegations, in that order.
    pub fn process_all_queues(&mut self, now: i64) -> (r: Result<()>)
        requires
            old(self).wf(),
        ensures
            final(self).wf(),
            final(self).consensus_keys == old(self).consensus_keys,
            final(self).validators_by_power == old(self).validators_by_power,
            final(self).last_validator_powers == old(self).last_validator_powers,
            final(self).last_signed_block == old(self).last_signed_block,
            final(self).settings_same(*old(self)),
            r is Ok ==> {
                &&& forall|e: ValidatorQueueEntry| #[trigger] has_key(final(self).validator_queue.entries@, e)
                    == (has_key(old(self).validator_queue.entries@, e) && !matured_by(
                    now,
                    e.start_seconds,
                    old(self).unbonding_seconds,
                ))
                &&& final(self).unbonding_delegation_queue@ == old(self).unbonding_delegation_queue@.skip(
                    matured_unbond_entries(old(self).unbonding_delegation_queue@, now, old(self).unbonding_seconds) as int,
                )
                &&& final(self).redelegation_queue@ == old(self).redelegation_queue@.skip(
                    matured_redelegation_entries(old(self).redelegation_queue@, now, old(self).unbonding_seconds) as int,
                )
            },
            ({
                &&& forall|e: ValidatorQueueEntry| #[trigger] has_key(old(self).validator_queue.entries@, e)
                    ==> !matured_by(now, e.start_seconds, old(self).unbonding_seconds)
                &&& matured_unbond_entries(old(self).unbonding_delegation_queue@, now, old(self).unbonding_seconds) == 0
                &&& matured_redelegation_entries(old(self).redelegation_queue@, now, old(self).unbonding_seconds) == 0
            }) ==> r is Ok && *final(self) == *old(self),
    {
        self.process_validator_queue(now)?;
        self.process_unbonding_delegation_queue(now)?;
        self.process_redelegation_queue(now)
    }
}

} // verus!

verus! {

/// The voting power of an index entry.
pub open spec fn entry_power(e: ValidatorPowerEntry) -> u64 {
    (u64::MAX - e.inverted_power) as u64
}

/// Where the active set ends when the index is walked from position `i`:
/// at the first entry of zero power, or after `max_vals` entries (no limit
/// when `max_vals` is zero).
pub open spec fn active_end(es: Seq<(ValidatorPowerEntry, ())>, i: int, max_vals: u64) -> int
    decreases es.len() - i,
{
    if i < 0 || i >= es.len() || entry_power(es[i].0) == 0 {
        i
    } else if i + 1 == max_vals {
        i + 1
    } else {
        active_end(es, i + 1, max_vals)
    }
}

/// The active set: the validators with the greatest nonzero powers, in
/// index order, at most `max_vals` of them (all when it is zero).
pub open spec fn active_set_spec(es: Seq<(ValidatorPowerEntry, ())>, max_vals: u64) -> Seq<(Address, u64)> {
    es.take(active_end(es, 0, max_vals)).map_values(
        |e: (ValidatorPowerEntry, ())| (Address { bytes: e.0.address_bytes }, entry_power(e.0)),
    )
}

/// The active set ends within the index, after entries of nonzero power
/// only.
proof fn lemma_active_end(es: Seq<(ValidatorPowerEntry, ())>, i: int, max_vals: u64)
    requires
        0 <= i <= es.len(),
    ensures
        i <= active_end(es, i, max_vals) <= es.len(),
        forall|j: int| i <= j < active_end(es, i, max_vals) ==> entry_power(#[trigger] es[j].0) != 0,
    decreases es.len() - i,
{
    if i < es.len() && entry_power(es[i].0) != 0 && i + 1 != max_vals {
        lemma_active_end(es, i + 1, max_vals);
    }
}

/// In a well-formed power index the active set names each validator once,
/// each with a positive power.
pub proof fn lemma_active_set_wf(
    by_power: OrderedMap<ValidatorPowerEntry, ()>,
    last: OrderedMap<Address, u64>,
    max_vals: u64,
)
    requires
        by_power.wf(),
        power_indexed(by_power, last),
    ensures
        distinct_addresses(active_set_spec(by_power.entries@, max_vals)),
        positive_powers(active_set_spec(by_power.entries@, max_vals)),
{
    let es = by_power.entries@;
    let n = active_end(es, 0, max_vals);
    lemma_active_end(es, 0, max_vals);
    let s = active_set_spec(es, max_vals);
    assert(s.len() == n);
    assert forall|i: int| 0 <= i < s.len() implies (#[trigger] s[i]).1 > 0 by {
        assert(s[i] == (Address { bytes: es[i].0.address_bytes }, entry_power(es[i].0)));
    }
    assert forall|i: int, j: int|
        0 <= i < s.len() && 0 <= j < s.len() && i != j implies (#[trigger] s[i]).0 != (#[trigger] s[j]).0 by {
        let ei = es[i].0;
        let ej = es[j].0;
        assert(s[i].0 == Address { bytes: ei.address_bytes });
        assert(s[j].0 == Address { bytes: ej.address_bytes });
        if ei.address_bytes == ej.address_bytes {
            assert(has_key(es, ei));
            assert(has_key(es, ej));
            assert(ei.inverted_power == ej.inverted_power);
            assert(ei == ej);
            ValidatorPowerEntry::lemma_key_order(ei, ej, ej);
            if i < j {
                assert(es[i].0.key_lt(es[j].0));
            } else {
                assert(es[j].0.key_lt(es[i].0));
            }
        }
    }
}

/// The members of the new active set whose power differs from the last
/// reported one (or that were not reported), with their new power.
pub open spec fn changed_updates(new_vals: Seq<(Address, u64)>, last_map: OrderedMap<Address, u64>) -> Seq<(Address, u64)> {
    new_vals.filter_map(
        |v: (Address, u64)| if last_map.spec_get(v.0) == Some(v.1) {
            None
        } else {
            Some(v)
        },
    )
}

/// The previously reported validators that left the active set, with power
/// zero.
pub open spec fn removed_updates(new_vals: Seq<(Address, u64)>, last: Seq<(Address, u64)>) -> Seq<(Address, u64)> {
    last.filter_map(
        |v: (Address, u64)| if new_vals.map_values(|n: (Address, u64)| n.0).contains(v.0) {
            None
        } else {
            Some((v.0, 0u64))
        },
    )
}

/// The voting power updates that move consensus from the last reported
/// powers to the new active set: each member of the set whose power changed
/// (or was not reported), then each previously reported validator that left
/// the set, with power zero.
pub open spec fn power_updates_spec(new_vals: Seq<(Address, u64)>, last: Seq<(Address, u64)>, last_map: OrderedMap<Address, u64>) -> Seq<(Address, u64)> {
    changed_updates(new_vals, last_map) + removed_updates(new_vals, last)
}

/// The active set of a power index.
pub fn active_set(by_power: &OrderedMap<ValidatorPowerEntry, ()>, max_vals: u64) -> (r: Vec<(Address, u64)>)
    ensures
        r@ == active_set_spec(by_power.entries@, max_vals),
{
    let ghost es = by_power.entries@;
    let mut out: Vec<(Address, u64)> = Vec::new();
    let mut i: usize = 0;
    let mut count: u64 = 0;
    while i < by_power.entries.len()
        invariant_except_break
            active_end(es, 0, max_vals) == active_end(es, i as int, max_vals),
        invariant
            es == by_power.entries@,
            i <= es.len(),
            count == i,
            out@ == es.take(i as int).map_values(
                |e: (ValidatorPowerEntry, ())| (Address { bytes: e.0.address_bytes }, entry_power(e.0)),
            ),
        ensures
            active_end(es, 0, max_vals) == i,
        decreases es.len() - i,
    {
        let entry = by_power.entries[i].0;
        let new_power = entry.power();
        if new_power == 0 {
            break ;
        }
        out.push((Address { bytes: entry.address_bytes }, new_power));
        i = i + 1;
        count = count + 1;
        proof {
            assert(out@ =~= es.take(i as int).map_values(
                |e: (ValidatorPowerEntry, ())| (Address { bytes: e.0.address_bytes }, entry_power(e.0)),
            ));
        }
        if count == max_vals {
            break ;
        }
    }
    out
}

/// Whether an address is among the entries.
fn contains_address(vals: &Vec<(Address, u64)>, address: Address) -> (r: bool)
    ensures
        r == vals@.map_values(|n: (Address, u64)| n.0).contains(address),
{
    let mut i: usize = 0;
    while i < vals.len()
        invariant
            i <= vals@.len(),
            forall|j: int| 0 <= j < i ==> vals@[j].0 != address,
        decreases vals@.len() - i,
    {
        if vals[i].0.key_eq(&address) {
            assert(vals@.map_values(|n: (Address, u64)| n.0)[i as int] == address);
            return true;
        }
        i = i + 1;
    }
    proof {
        if vals@.map_values(|n: (Address, u64)| n.0).contains(address) {
            let m = vals@.map_values(|n: (Address, u64)| n.0);
            let j = choose|j: int| 0 <= j < m.len() && #[trigger] m[j] == address;
            assert(vals@[j].0 == address);
        }
    }
    false
}

/// The voting power updates from the last reported powers to a new active
/// set.
pub fn power_updates(new_vals: &Vec<(Address, u64)>, last: &OrderedMap<Address, u64>) -> (r: Vec<(Address, u64)>)
    requires
        last.wf(),
    ensures
        r@ == power_updates_spec(new_vals@, last.entries@, *last),
{
    let ghost nv = new_vals@;
    let ghost lm = *last;
    let mut changed: Vec<(Address, u64)> = Vec::new();
    let mut i: usize = 0;
    while i < new_vals.len()
        invariant
            i <= nv.len(),
            nv == new_vals@,
            lm == *last,
            last.wf(),
            changed@ == changed_updates(nv.take(i as int), lm),
        decreases nv.len() - i,
    {
        let (address, power) = new_vals[i];
        let ghost before = changed@;
        let same = match last.get(&address) {
            Some(prev) => *prev == power,
            None => false,
        };
        if !same {
            changed.push((address, power));
        }
        proof {
            assert(nv.take(i + 1).drop_last() =~= nv.take(i as int));
            assert(nv.take(i + 1).last() == nv[i as int]);
            if !same {
                assert(changed@ =~= before + seq![(address, power)]);
            }
        }
        i = i + 1;
    }
    assert(nv.take(nv.len() as int) =~= nv);
    let ghost le = last.entries@;
    let mut removed: Vec<(Address, u64)> = Vec::new();
    let mut k: usize = 0;
    while k < last.entries.len()
        invariant
            k <= le.len(),
            le == last.entries@,
            nv == new_vals@,
            removed@ == removed_updates(nv, le.take(k as int)),
        decreases le.len() - k,
    {
        let (address, _power) = last.entries[k];
        let ghost before = removed@;
        let present = contains_address(new_vals, address);
        if !present {
            removed.push((address, 0u64));
        }
        proof {
            assert(le.take(k + 1).drop_last() =~= le.take(k as int));
            assert(le.take(k + 1).last() == le[k as int]);
            if !present {
                assert(removed@ =~= before + seq![(address, 0u64)]);
            }
        }
        k = k + 1;
    }
    assert(le.take(le.len() as int) =~= le);
    let mut out = changed;
    let mut rm = removed;
    out.append(&mut rm);
    out
}

} // verus!

verus! {

/// The power recorded for `a` after the updates are applied in order to a
/// map where it was `orig`: the last update of `a` decides (a positive power

/// The power an update sequence leaves for a key it updates does not depend
/// on the power before.
proof fn lemma_applied_power_updated(u: Seq<(Address, u64)>, a: Address, x: Option<u64>, y: Option<u64>)
    requires
        exists|j: int| 0 <= j < u.len() && (#[trigger] u[j]).0 == a,
    ensures
        applied_power(u, a, x) == applied_power(u, a, y),
    decreases u.len(),
{
    if u.last().0 != a {
        let j = choose|j: int| 0 <= j < u.len() && (#[trigger] u[j]).0 == a;
        assert(j < u.len() - 1);
        assert(u.drop_last()[j].0 == a);
        lemma_applied_power_updated(u.drop_last(), a, x, y);
    }
}

/// Applying one more update of a prefix.
proof fn lemma_applied_power_step(u: Seq<(Address, u64)>, i: int)
    requires
        0 <= i < u.len(),
    ensures
        u.take(i + 1).drop_last() == u.take(i),
        u.take(i + 1).last() == u[i],
{
    assert(u.take(i + 1).drop_last() =~= u.take(i));
}

/// is recorded, zero removes it); without one it stays `orig`.
pub open spec fn applied_power(updates: Seq<(Address, u64)>, a: Address, orig: Option<u64>) -> Option<u64>
    decreases updates.len(),
{
    if updates.len() == 0 {
        orig
    } else if updates.last().0 == a {
        if updates.last().1 > 0 {
            Some(updates.last().1)
        } else {
            None
        }
    } else {
        applied_power(updates.drop_last(), a, orig)
    }
}

/// No two entries name the same validator.
pub open spec fn distinct_addresses(s: Seq<(Address, u64)>) -> bool {
    forall|i: int, j: int|
        0 <= i < s.len() && 0 <= j < s.len() && i != j ==> (#[trigger] s[i]).0 != (#[trigger] s[j]).0
}

/// Every entry has a positive power.
pub open spec fn positive_powers(s: Seq<(Address, u64)>) -> bool {
    forall|i: int| 0 <= i < s.len() ==> (#[trigger] s[i]).1 > 0
}

/// Applying two runs of updates one after the other is applying them joined.
proof fn lemma_applied_concat(s1: Seq<(Address, u64)>, s2: Seq<(Address, u64)>, a: Address, orig: Option<u64>)
    ensures
        applied_power(s1 + s2, a, orig) == applied_power(s2, a, applied_power(s1, a, orig)),
    decreases s2.len(),
{
    if s2.len() == 0 {
        assert(s1 + s2 =~= s1);
    } else {
        assert((s1 + s2).drop_last() =~= s1 + s2.drop_last());
        assert((s1 + s2).last() == s2.last());
        lemma_applied_concat(s1, s2.drop_last(), a, orig);
    }
}

/// Applying one more update after a run.
proof fn lemma_applied_push(s: Seq<(Address, u64)>, x: (Address, u64), a: Address, orig: Option<u64>)
    ensures
        applied_power(s + seq![x], a, orig) == if x.0 == a {
            if x.1 > 0 {
                Some(x.1)
            } else {
                None
            }
        } else {
            applied_power(s, a, orig)
        },
{
    assert((s + seq![x]).drop_last() =~= s);
    assert((s + seq![x]).last() == x);
}

/// Where the addresses are distinct, the value found for an entry's address
/// is that entry's.
proof fn lemma_value_of_at(s: Seq<(Address, u64)>, i: int)
    requires
        distinct_addresses(s),
        0 <= i < s.len(),
    ensures
        has_key(s, s[i].0),
        value_of(s, s[i].0) == Some(s[i].1),
{
    let k = s[i].0;
    assert(has_key(s, k));
    let j = choose|j: int| 0 <= j < s.len() && (#[trigger] s[j]).0 == k;
    assert(j == i);
}

/// An address occurs in a nonempty sequence when it occurs before the last
/// entry or in it.
proof fn lemma_has_key_drop_last(s: Seq<(Address, u64)>, a: Address)
    requires
        s.len() > 0,
    ensures
        has_key(s, a) == (has_key(s.drop_last(), a) || s.last().0 == a),
{
    let r = s.drop_last();
    if has_key(s, a) {
        let i = choose|i: int| 0 <= i < s.len() && (#[trigger] s[i]).0 == a;
        if i < s.len() - 1 {
            assert(r[i] == s[i]);
        }
    }
    if has_key(r, a) {
        let i = choose|i: int| 0 <= i < r.len() && (#[trigger] r[i]).0 == a;
        assert(s[i] == r[i]);
    }
    if s.last().0 == a {
        assert(s[s.len() - 1].0 == a);
    }
}

/// The addresses of a sequence of entries contain `a` exactly when some entry
/// is `a`'s.
proof fn lemma_addresses_contain(s: Seq<(Address, u64)>, a: Address)
    ensures
        s.map_values(|n: (Address, u64)| n.0).contains(a) == has_key(s, a),
{
    let m = s.map_values(|n: (Address, u64)| n.0);
    if m.contains(a) {
        let i = choose|i: int| 0 <= i < m.len() && m[i] == a;
        assert(s[i].0 == a);
    }
    if has_key(s, a) {
        let i = choose|i: int| 0 <= i < s.len() && (#[trigger] s[i]).0 == a;
        assert(m[i] == a);
    }
}

/// Applying the changed members of the active set: a member is set to its
/// new power, every other validator keeps its last reported power.
proof fn lemma_applied_changed(nv: Seq<(Address, u64)>, lm: OrderedMap<Address, u64>, a: Address)
    requires
        distinct_addresses(nv),
        positive_powers(nv),
    ensures
        applied_power(changed_updates(nv, lm), a, lm.spec_get(a)) == if has_key(nv, a) {
            value_of(nv, a)
        } else {
            lm.spec_get(a)
        },
    decreases nv.len(),
{
    if nv.len() == 0 {
        assert(!has_key(nv, a));
    } else {
        let rest = nv.drop_last();
        let x = nv.last();
        let n = nv.len() - 1;
        assert(distinct_addresses(rest)) by {
            assert forall|i: int, j: int|
                0 <= i < rest.len() && 0 <= j < rest.len() && i != j implies (#[trigger] rest[i]).0
                != (#[trigger] rest[j]).0 by {
                assert(rest[i] == nv[i] && rest[j] == nv[j]);
            }
        }
        assert(positive_powers(rest)) by {
            assert forall|i: int| 0 <= i < rest.len() implies (#[trigger] rest[i]).1 > 0 by {
                assert(rest[i] == nv[i]);
            }
        }
        lemma_applied_changed(rest, lm, a);
        lemma_has_key_drop_last(nv, a);
        let cr = changed_updates(rest, lm);
        assert(changed_updates(nv, lm) == if lm.spec_get(x.0) == Some(x.1) {
            cr
        } else {
            cr + seq![x]
        });
        lemma_applied_push(cr, x, a, lm.spec_get(a));
        if x.0 == a {
            assert(x == nv[n]);
            lemma_value_of_at(nv, n);
            assert(!has_key(rest, a)) by {
                if has_key(rest, a) {
                    let i = choose|i: int| 0 <= i < rest.len() && (#[trigger] rest[i]).0 == a;
                    assert(nv[i].0 == nv[n].0);
                }
            }
            assert(x.1 > 0) by {
                assert(nv[n].1 > 0);
            }
        } else if has_key(rest, a) {
            let i = choose|i: int| 0 <= i < rest.len() && (#[trigger] rest[i]).0 == a;
            assert(rest[i] == nv[i]);
            lemma_value_of_at(nv, i);
            lemma_value_of_at(rest, i);
        }
    }
}

/// Applying the removals: a previously reported validator that is not in the
/// active set is removed, every other one keeps what it had.
proof fn lemma_applied_removed(nv: Seq<(Address, u64)>, le: Seq<(Address, u64)>, a: Address, orig: Option<u64>)
    ensures
        applied_power(removed_updates(nv, le), a, orig) == if !has_key(nv, a) && has_key(le, a) {
            None
        } else {
            orig
        },
    decreases le.len(),
{
    lemma_addresses_contain(nv, a);
    if le.len() == 0 {
        assert(!has_key(le, a));
    } else {
        let rest = le.drop_last();
        let x = le.last();
        lemma_applied_removed(nv, rest, a, orig);
        lemma_has_key_drop_last(le, a);
        lemma_addresses_contain(nv, x.0);
        let rr = removed_updates(nv, rest);
        assert(removed_updates(nv, le) == if has_key(nv, x.0) {
            rr
        } else {
            rr + seq![(x.0, 0u64)]
        });
        lemma_applied_push(rr, (x.0, 0u64), a, orig);
    }
}

/// The voting power updates bring consensus exactly to the new active set:
/// applied in order to the last reported powers, they leave each member of
/// the set with its power and no one else.
pub proof fn lemma_power_updates_reach_active_set(new_vals: Seq<(Address, u64)>, last: OrderedMap<Address, u64>)
    requires
        distinct_addresses(new_vals),
        positive_powers(new_vals),
    ensures
        forall|a: Address| #[trigger]
            applied_power(power_updates_spec(new_vals, last.entries@, last), a, last.spec_get(a))
                == value_of(new_vals, a),
{
    assert forall|a: Address| #[trigger]
        applied_power(power_updates_spec(new_vals, last.entries@, last), a, last.spec_get(a))
            == value_of(new_vals, a) by {
        let c = changed_updates(new_vals, last);
        lemma_applied_concat(c, removed_updates(new_vals, last.entries@), a, last.spec_get(a));
        lemma_applied_changed(new_vals, last, a);
        lemma_applied_removed(new_vals, last.entries@, a, applied_power(c, a, last.spec_get(a)));
    }
}

/// The consensus keys of the updated validators with their new powers.
pub open spec fn keyed_updates(updates: Seq<(Address, u64)>, keys: OrderedMap<Address, [u8; 32]>) -> Seq<([u8; 32], u64)> {
    updates.map_values(|u: (Address, u64)| (keys.spec_get(u.0)->0, u.1))
}

impl<S: Symbol> Staking<S> {
    /// No entry of the validator, unbonding or redelegation queue has
    /// matured by `now`.
    pub open spec fn queues_idle(&self, now: i64) -> bool {
        &&& forall|e: ValidatorQueueEntry| #[trigger] has_key(self.validator_queue.entries@, e)
            ==> !matured_by(now, e.start_seconds, self.unbonding_seconds)
        &&& matured_unbond_entries(self.unbonding_delegation_queue@, now, self.unbonding_seconds) == 0
        &&& matured_redelegation_entries(self.redelegation_queue@, now, self.unbonding_seconds) == 0
    }
}

impl<S: Symbol> Staking<S> {
    /// In the EndBlock step, all queues are processed and the minimal set of
    /// voting power updates for consensus is computed and reported: the
    /// active set is taken from the power index, each validator entering or
    /// leaving it is told so (and transitions to bonded or unbonding), and
    /// the reported powers are recorded for the next block.
    pub fn end_block_step(&mut self, height: u64, now: i64, val_ctx: &mut Validators) -> (r: Result<()>)
        requires
            old(self).wf(),
        ensures
            final(self).wf(),
            final(self).consensus_keys == old(self).consensus_keys,
            final(self).settings_same(*old(self)),
            r is Ok ==> {
                let updates = power_updates_spec(
                    active_set_spec(old(self).validators_by_power.entries@, old(self).max_validators),
                    old(self).last_validator_powers.entries@,
                    old(self).last_validator_powers,
                );
                &&& forall|i: int| 0 <= i < updates.len() ==> #[trigger] has_key(old(self).consensus_keys.entries@, updates[i].0)
                &&& final(val_ctx).voting_power@ == old(val_ctx).voting_power@ + keyed_updates(updates, old(self).consensus_keys)
                &&& forall|a: Address| #[trigger] final(self).last_validator_powers.spec_get(a) == applied_power(
                    updates,
                    a,
                    old(self).last_validator_powers.spec_get(a),
                )
                &&& forall|a: Address| #[trigger] final(self).last_validator_powers.spec_get(a) == value_of(
                    active_set_spec(old(self).validators_by_power.entries@, old(self).max_validators),
                    a,
                )
                &&& forall|i: int|
                    0 <= i < updates.len() ==> final(self).validators.map.spec_get(#[trigger] updates[i].0) is Some
                        && final(self).validators.map.spec_get(updates[i].0)->0.inner.in_active_set
                        == (final(self).last_validator_powers.spec_get(updates[i].0) is Some)
            },
            old(self).queues_idle(now) && power_updates_spec(
                active_set_spec(old(self).validators_by_power.entries@, old(self).max_validators),
                old(self).last_validator_powers.entries@,
                old(self).last_validator_powers,
            ).len() == 0 ==> r is Ok && *final(self) == *old(self) && *final(val_ctx) == *old(val_ctx),
    {
        let ghost idle = old(self).queues_idle(now) && power_updates_spec(
            active_set_spec(old(self).validators_by_power.entries@, old(self).max_validators),
            old(self).last_validator_powers.entries@,
            old(self).last_validator_powers,
        ).len() == 0;
        self.process_all_queues(now)?;
        let new_val_entries = active_set(&self.validators_by_power, self.max_validators);
        let updates = power_updates(&new_val_entries, &self.last_validator_powers);
        assert(idle ==> updates@.len() == 0);
        proof {
            lemma_active_set_wf(self.validators_by_power, self.last_indexed_power, self.max_validators);
            lemma_power_updates_reach_active_set(new_val_entries@, self.last_validator_powers);
        }
        let ghost lvp0 = self.last_validator_powers;
        let ghost keys0 = self.consensus_keys;
        let n = updates.len();
        let mut i: usize = 0;
        while i < n
            invariant
                self.wf(),
                n == updates@.len(),
                idle ==> n == 0 && *self == *old(self),
                idle == (old(self).queues_idle(now) && power_updates_spec(
                    active_set_spec(old(self).validators_by_power.entries@, old(self).max_validators),
                    old(self).last_validator_powers.entries@,
                    old(self).last_validator_powers,
                ).len() == 0),
                i <= n,
                self.last_validator_powers == lvp0,
                forall|a: Address|
                    (exists|j: int| 0 <= j < i && (#[trigger] updates@[j]).0 == a) ==> #[trigger] self.validators.map.spec_get(a) is Some
                        && self.validators.map.spec_get(a)->0.inner.in_active_set == (applied_power(
                        updates@.take(i as int),
                        a,
                        None,
                    ) is Some),
                self.consensus_keys == keys0,
                keys0 == old(self).consensus_keys,
                self.settings_same(*old(self)),
            decreases n - i,
        {
            let (address, power) = updates[i];
            let ghost prev = self.validators;
            let mut validator = self.checkout(address)?;
            let in_active_set_before = validator.entry.inner.in_active_set;
            validator.entry.inner.in_active_set = power > 0;
            let in_active_set_now = validator.entry.inner.in_active_set;
            self.checkin(validator);
            proof {
                lemma_applied_power_step(updates@, i as int);
                assert forall|a: Address|
                    (exists|j: int| 0 <= j < i + 1 && (#[trigger] updates@[j]).0 == a) implies #[trigger] self.validators.map.spec_get(a) is Some
                        && self.validators.map.spec_get(a)->0.inner.in_active_set == (applied_power(
                        updates@.take(i + 1),
                        a,
                        None,
                    ) is Some) by {
                    if a != address {
                        let j = choose|j: int| 0 <= j < i + 1 && (#[trigger] updates@[j]).0 == a;
                        assert(j < i);
                        assert(self.validators.map.spec_get(a) == prev.map.spec_get(a));
                    }
                }
            }
            let ghost mid = self.validators;
            if in_active_set_before && !in_active_set_now {
                let tm_hash = tm_pubkey_hash(self.consensus_key(address)?)?;
                self.transition_to_unbonding(address, now)?;
                self.last_signed_block.remove(&tm_hash);
            } else if !in_active_set_before && in_active_set_now {
                let tm_hash = tm_pubkey_hash(self.consensus_key(address)?)?;
                self.transition_to_bonded(address)?;
                self.last_signed_block.insert(tm_hash, height);
            }
            proof {
                assert forall|a: Address|
                    (exists|j: int| 0 <= j < i + 1 && (#[trigger] updates@[j]).0 == a) implies #[trigger] self.validators.map.spec_get(a) is Some
                        && self.validators.map.spec_get(a)->0.inner.in_active_set == (applied_power(
                        updates@.take(i + 1),
                        a,
                        None,
                    ) is Some) by {
                    assert(mid.map.spec_get(a) is Some);
                    if a != address {
                        assert(self.validators.map.spec_get(a) == mid.map.spec_get(a));
                    }
                }
            }
            i = i + 1;
        }
        let ghost vals1 = self.validators;
        assert(updates@.take(n as int) =~= updates@);
        let mut keyed: Vec<([u8; 32], u64)> = Vec::new();
        let mut j: usize = 0;
        while j < n
            invariant
                self.wf(),
                n == updates@.len(),
                idle ==> n == 0 && *self == *old(self),
                idle == (old(self).queues_idle(now) && power_updates_spec(
                    active_set_spec(old(self).validators_by_power.entries@, old(self).max_validators),
                    old(self).last_validator_powers.entries@,
                    old(self).last_validator_powers,
                ).len() == 0),
                j <= n,
                self.consensus_keys == keys0,
                keys0 == old(self).consensus_keys,
                self.settings_same(*old(self)),
                keyed@ == keyed_updates(updates@.take(j as int), keys0),
                self.validators == vals1,
                forall|t: int| 0 <= t < j ==> #[trigger] has_key(keys0.entries@, updates@[t].0),
            decreases n - j,
        {
            let (address, power) = updates[j];
            let consensus_key = match self.consensus_keys.get(&address) {
                Some(k) => *k,
                None => {
                    return Err(coins_error("No consensus key for validator"));
                },
            };
            keyed.push((consensus_key, power));
            proof {
                assert(has_key(keys0.entries@, address));
                assert(keyed@ =~= keyed_updates(updates@.take(j + 1), keys0));
            }
            j = j + 1;
        }
        assert(updates@.take(n as int) =~= updates@);
        let ghost vp0 = val_ctx.voting_power@;
        let mut k: usize = 0;
        while k < n
            invariant
                n == keyed@.len(),
                idle ==> n == 0 && *val_ctx == *old(val_ctx),
                idle == (old(self).queues_idle(now) && power_updates_spec(
                    active_set_spec(old(self).validators_by_power.entries@, old(self).max_validators),
                    old(self).last_validator_powers.entries@,
                    old(self).last_validator_powers,
                ).len() == 0),
                k <= n,
                val_ctx.voting_power@ == vp0 + keyed@.take(k as int),
            decreases n - k,
        {
            let (consensus_key, power) = keyed[k];
            val_ctx.set_voting_power(consensus_key, power);
            k = k + 1;
            assert(vp0 + keyed@.take(k as int) =~= (vp0 + keyed@.take(k - 1)).push(keyed@[k - 1]));
        }
        assert(keyed@.take(n as int) =~= keyed@);
        let mut m: usize = 0;
        while m < n
            invariant
                self.wf(),
                n == updates@.len(),
                idle ==> n == 0 && *self == *old(self),
                idle == (old(self).queues_idle(now) && power_updates_spec(
                    active_set_spec(old(self).validators_by_power.entries@, old(self).max_validators),
                    old(self).last_validator_powers.entries@,
                    old(self).last_validator_powers,
                ).len() == 0),
                m <= n,
                self.consensus_keys == keys0,
                self.settings_same(*old(self)),
                self.validators == vals1,
                forall|a: Address| #[trigger] self.last_validator_powers.spec_get(a) == applied_power(
                    updates@.take(m as int),
                    a,
                    lvp0.spec_get(a),
                ),
            decreases n - m,
        {
            let (address, power) = updates[m];
            if power > 0 {
                self.last_validator_powers.insert(address, power);
            } else {
                self.last_validator_powers.remove(&address);
            }
            proof {
                assert(updates@.take(m + 1).drop_last() =~= updates@.take(m as int));
                assert(updates@.take(m + 1).last() == (address, power));
                assert forall|a: Address| #[trigger] self.last_validator_powers.spec_get(a) == applied_power(
                    updates@.take(m + 1),
                    a,
                    lvp0.spec_get(a),
                ) by {}
            }
            m = m + 1;
        }
        proof {
            assert forall|t: int| 0 <= t < updates@.len() implies self.validators.map.spec_get(#[trigger] updates@[t].0) is Some
                && self.validators.map.spec_get(updates@[t].0)->0.inner.in_active_set
                == (self.last_validator_powers.spec_get(updates@[t].0) is Some) by {
                let a = updates@[t].0;
                assert(exists|j: int| 0 <= j < n && (#[trigger] updates@[j]).0 == a);
                assert(vals1.map.spec_get(a) is Some);
                lemma_applied_power_updated(updates@, a, lvp0.spec_get(a), None);
            }
        }
        Ok(())
    }
}

} // verus!

verus! {

/// A validator's vote in the last commit.
#[derive(Debug)]
pub struct VoteInfo {
    /// The Tendermint address (public key hash) of the voting validator, if
    /// given.
    pub validator_address: Option<Vec<u8>>,
    /// Whether the validator signed the last block.
    pub signed_last_block: bool,
}

/// The kind of misbehavior reported by consensus.
#[derive(Clone, Copy, Debug, PartialEq, Eq, Structural)]
pub enum EvidenceType {
    /// An unknown kind, which is ignored.
    Unknown,
    /// The validator signed two conflicting votes.
    DuplicateVote,
    /// The validator took part in a light client attack.
    LightClientAttack,
}

/// Evidence of a validator's misbehavior.
#[derive(Debug)]
pub struct Misbehavior {
    /// The Tendermint address (public key hash) of the validator, if given.
    pub validator_address: Option<Vec<u8>>,
    /// The kind of misbehavior.
    pub kind: EvidenceType,
}

/// What staking reads at the beginning of a block.
#[derive(Debug)]
pub struct BeginBlockCtx {
    /// The block height.
    pub height: u64,
    /// The votes of the last commit, if any.
    pub last_commit_info: Option<Vec<VoteInfo>>,
    /// Evidence of misbehavior.
    pub byzantine_validators: Vec<Misbehavior>,
}

/// The evidence names no validator, or a known one by its twenty-byte
/// hash.
pub open spec fn evidence_known(m: Misbehavior, hashes: OrderedMap<TmHash, Address>) -> bool {
    match m.validator_address {
        Some(a) => a@.len() == 20 && exists|h: TmHash| h@ == a@ && #[trigger] has_key(hashes.entries@, h),
        None => true,
    }
}

/// One of the votes says that the validator with Tendermint address `h`
/// signed the last block.
pub open spec fn signed_in(votes: Seq<VoteInfo>, h: TmHash) -> bool {
    exists|j: int|
        0 <= j < votes.len() && (#[trigger] votes[j]).signed_last_block && (
        votes[j].validator_address matches Some(a) && a@ == h@)
}

/// A validator last seen signing at `last` has been offline for more than
/// `max_offline_blocks` blocks at `height`.
pub open spec fn offline_for(last: Option<u64>, max_offline_blocks: u64, height: u64) -> bool {
    last matches Some(lh) && lh + max_offline_blocks < height
}

/// Keeps no item of a queue.
fn keep_none<T>(_item: &T) -> (r: Result<bool>)
    ensures
        r == Ok::<bool, Error>(false),
{
    Ok(false)
}

/// The votes up to and including vote `i` say that `h` signed exactly when
/// those before it do or vote `i` does.
proof fn lemma_signed_in_step(votes: Seq<VoteInfo>, i: int, h: TmHash)
    requires
        0 <= i < votes.len(),
    ensures
        signed_in(votes.take(i + 1), h) == (signed_in(votes.take(i), h) || (votes[i].signed_last_block && (
        votes[i].validator_address matches Some(a) && a@ == h@))),
{
    let a = votes.take(i + 1);
    let b = votes.take(i);
    if signed_in(a, h) {
        let j = choose|j: int|
            0 <= j < a.len() && (#[trigger] a[j]).signed_last_block && (a[j].validator_address matches Some(x)
                && x@ == h@);
        if j < i {
            assert(b[j] == a[j]);
        }
    }
    if signed_in(b, h) {
        let j = choose|j: int|
            0 <= j < b.len() && (#[trigger] b[j]).signed_last_block && (b[j].validator_address matches Some(x)
                && x@ == h@);
        assert(a[j] == b[j]);
    }
    if votes[i].signed_last_block && (votes[i].validator_address matches Some(x) && x@ == h@) {
        assert(a[i] == votes[i]);
    }
}

/// The bytes as a Tendermint public key hash, when there are twenty of them.
fn to_tm_hash(bytes: &Vec<u8>) -> (r: Option<TmHash>)
    ensures
        bytes@.len() == 20 ==> (r matches Some(h) && h@ == bytes@),
        bytes@.len() != 20 ==> r is None,
{
    broadcast use vstd::array::lemma_array_index, vstd::array::array_len_matches_n;

    if bytes.len() != 20 {
        return None;
    }
    let mut out = [0u8; 20];
    let mut i: usize = 0;
    while i < 20
        invariant
            i <= 20,
            bytes@.len() == 20,
            forall|j: int| 0 <= j < i ==> out@[j] == bytes@[j],
        decreases 20 - i,
    {
        out[i] = bytes[i];
        i = i + 1;
    }
    assert(out@ =~= bytes@);
    Some(out)
}

impl<S: Symbol> Staking<S> {
    /// A block whose begin cannot fail: no misbehavior is reported, and, when
    /// the last commit is given, every signing vote names a twenty-byte
    /// address and no known validator that did not sign has been offline for
    /// more than the allowed number of blocks.
    pub open spec fn quiet_block(&self, ctx: BeginBlockCtx) -> bool {
        &&& ctx.byzantine_validators@.len() == 0
        &&& ctx.last_commit_info matches Some(votes) ==> {
            &&& forall|i: int|
                0 <= i < votes@.len() && (#[trigger] votes@[i]).signed_last_block ==> (
                votes@[i].validator_address matches Some(a) ==> a@.len() == 20)
            &&& forall|h: TmHash| #[trigger] self.address_for_tm_hash.spec_get(h) is Some && !signed_in(votes@, h)
                ==> !offline_for(self.last_signed_block.spec_get(h), self.max_offline_blocks, ctx.height)
        }
    }
}

impl<S: Symbol> Staking<S> {
    /// At the beginning of a block: records the height for every validator
    /// that signed the last block, punishes for downtime each active
    /// validator that has not signed for more than the allowed number of
    /// blocks, and punishes the validators reported for misbehavior.
    pub fn begin_block(&mut self, ctx: &BeginBlockCtx, now: i64) -> (r: Result<()>)
        requires
            old(self).wf(),
            i64::MIN <= now + (old(self).downtime_jail_seconds as i64) <= i64::MAX,
        ensures
            final(self).wf(),
            final(self).consensus_keys == old(self).consensus_keys,
            final(self).address_for_tm_hash == old(self).address_for_tm_hash,
            final(self).settings_same(*old(self)),
            r is Ok ==> {
                &&& ctx.last_commit_info matches Some(votes) ==> forall|i: int|
                    0 <= i < votes@.len() && (#[trigger] votes@[i]).signed_last_block
                        ==> (votes@[i].validator_address matches Some(a) ==> a@.len() == 20)
                &&& forall|i: int|
                    0 <= i < ctx.byzantine_validators@.len() ==> evidence_known(
                        #[trigger] ctx.byzantine_validators@[i],
                        old(self).address_for_tm_hash,
                    )
                &&& ctx.last_commit_info matches Some(votes) ==> forall|h: TmHash| #[trigger]
                    final(self).last_signed_block.spec_get(h) == if signed_in(votes@, h) {
                        Some(ctx.height)
                    } else if offline_for(old(self).last_signed_block.spec_get(h), old(self).max_offline_blocks, ctx.height)
                        && old(self).address_for_tm_hash.spec_get(h) is Some {
                        None
                    } else {
                        old(self).last_signed_block.spec_get(h)
                    }
                &&& ctx.last_commit_info is None ==> final(self).last_signed_block == old(self).last_signed_block
                &&& ctx.last_commit_info matches Some(votes) ==> forall|h: TmHash|
                    !signed_in(votes@, h) && (old(self).last_signed_block.spec_get(h) matches Some(lh) && lh
                        + old(self).max_offline_blocks >= ctx.height) ==> #[trigger] final(self).last_signed_block.spec_get(h)
                        == old(self).last_signed_block.spec_get(h)
                &&& ctx.last_commit_info matches Some(votes) ==> forall|h: TmHash|
                    !signed_in(votes@, h) && (old(self).last_signed_block.spec_get(h) matches Some(lh) && lh
                        + old(self).max_offline_blocks < ctx.height) && old(self).address_for_tm_hash.spec_get(h) is Some
                        ==> #[trigger] final(self).last_signed_block.spec_get(h) is None
            },
            old(self).quiet_block(*ctx) ==> r is Ok,
            r is Ok && ctx.byzantine_validators@.len() == 0 ==> forall|a: Address|
                (forall|h: TmHash|
                    #[trigger] old(self).address_for_tm_hash.spec_get(h) == Some(a) ==> !(ctx.last_commit_info matches Some(
                        votes,
                    ) && !signed_in(votes@, h) && (old(self).last_signed_block.spec_get(h) matches Some(lh) && lh
                        + old(self).max_offline_blocks < ctx.height))) ==> #[trigger] final(self).validators.map.spec_get(a) == old(self).validators.map.spec_get(a),
    {
        let height = ctx.height;
        if let Some(votes) = &ctx.last_commit_info {
            let ghost vs = votes@;
            let mut i: usize = 0;
            while i < votes.len()
                invariant
                    self.wf(),
                    i <= votes@.len(),
                    vs == votes@,
                    ctx.last_commit_info == Some(*votes),
                    height == ctx.height,
                    *self == (Staking { last_signed_block: self.last_signed_block, ..*old(self) }),
                    forall|j: int|
                        0 <= j < i && (#[trigger] votes@[j]).signed_last_block ==> (
                        votes@[j].validator_address matches Some(a) ==> a@.len() == 20),
                    forall|h: TmHash| #[trigger] self.last_signed_block.spec_get(h) == if signed_in(
                        vs.take(i as int),
                        h,
                    ) {
                        Some(height)
                    } else {
                        old(self).last_signed_block.spec_get(h)
                    },
                decreases votes@.len() - i,
            {
                let vote = &votes[i];
                let ghost before = self.last_signed_block;
                if vote.signed_last_block {
                    if let Some(address) = &vote.validator_address {
                        let hash = match to_tm_hash(address) {
                            Some(h) => h,
                            None => {
                                return Err(coins_error("Invalid pubkey length from Tendermint"));
                            },
                        };
                        self.last_signed_block.insert(hash, height);
                        proof {
                            assert forall|h: TmHash| #[trigger] self.last_signed_block.spec_get(h) == if signed_in(
                                vs.take(i + 1),
                                h,
                            ) {
                                Some(height)
                            } else {
                                old(self).last_signed_block.spec_get(h)
                            } by {
                                lemma_signed_in_step(vs, i as int, h);
                                if h != hash && vs[i as int].validator_address == Some(*address) && address@ == h@ {
                                    lemma_hash_unique(hash, h);
                                }
                            }
                        }
                    } else {
                        proof {
                            assert forall|h: TmHash| #[trigger] self.last_signed_block.spec_get(h) == if signed_in(
                                vs.take(i + 1),
                                h,
                            ) {
                                Some(height)
                            } else {
                                old(self).last_signed_block.spec_get(h)
                            } by {
                                lemma_signed_in_step(vs, i as int, h);
                            }
                        }
                    }
                } else {
                    proof {
                        assert forall|h: TmHash| #[trigger] self.last_signed_block.spec_get(h) == if signed_in(
                            vs.take(i + 1),
                            h,
                        ) {
                            Some(height)
                        } else {
                            old(self).last_signed_block.spec_get(h)
                        } by {
                            lemma_signed_in_step(vs, i as int, h);
                        }
                    }
                }
                i = i + 1;
            }
            assert(vs.take(vs.len() as int) =~= vs);
            let ghost t1 = self.last_signed_block;
            let mut offline: Vec<TmHash> = Vec::new();
            let mut k: usize = 0;
            while k < self.last_signed_block.entries.len()
                invariant
                    self.last_signed_block == t1,
                    self.validators == old(self).validators,
                    t1.wf(),
                    k <= t1.entries@.len(),
                    height == ctx.height,
                    self.max_offline_blocks == old(self).max_offline_blocks,
                    forall|j: int| 0 <= j < offline@.len() ==> offline_for(
                        t1.spec_get(#[trigger] offline@[j]),
                        old(self).max_offline_blocks,
                        height,
                    ),
                    forall|t: int|
                        0 <= t < k && offline_for(
                            Some((#[trigger] t1.entries@[t]).1),
                            old(self).max_offline_blocks,
                            height,
                        ) ==> offline@.contains(t1.entries@[t].0),
                decreases t1.entries@.len() - k,
            {
                let (hash, last_height) = self.last_signed_block.entries[k];
                proof {
                    t1.lemma_value_at(k as int);
                }
                if (last_height as u128) + (self.max_offline_blocks as u128) < height as u128 {
                    let ghost off0 = offline@;
                    offline.push(hash);
                    proof {
                        assert forall|t: int|
                            0 <= t < k + 1 && offline_for(
                                Some((#[trigger] t1.entries@[t]).1),
                                old(self).max_offline_blocks,
                                height,
                            ) implies offline@.contains(t1.entries@[t].0) by {
                            if t < k {
                                assert(off0.contains(t1.entries@[t].0));
                                let j = choose|j: int| 0 <= j < off0.len() && off0[j] == t1.entries@[t].0;
                                assert(offline@[j] == off0[j]);
                            } else {
                                assert(offline@[offline@.len() - 1] == hash);
                            }
                        }
                    }
                }
                k = k + 1;
            }
            let mut m: usize = 0;
            while m < offline.len()
                invariant
                    self.wf(),
                    m <= offline@.len(),
                    height == ctx.height,
                    forall|a: Address|
                        (forall|h: TmHash|
                        #[trigger] old(self).address_for_tm_hash.spec_get(h) == Some(a) ==> !(ctx.last_commit_info matches Some(
                            votes,
                        ) && !signed_in(votes@, h) && (old(self).last_signed_block.spec_get(h) matches Some(lh) && lh
                            + old(self).max_offline_blocks < ctx.height))) ==> #[trigger] self.validators.map.spec_get(a) == old(self).validators.map.spec_get(a),
                    vs == votes@,
                    ctx.last_commit_info == Some(*votes),
                    forall|h: TmHash| #[trigger] t1.spec_get(h) == if signed_in(vs, h) {
                        Some(height)
                    } else {
                        old(self).last_signed_block.spec_get(h)
                    },
                    self.consensus_keys == old(self).consensus_keys,
                    self.address_for_tm_hash == old(self).address_for_tm_hash,
                    self.settings_same(*old(self)),
                    i64::MIN <= now + (old(self).downtime_jail_seconds as i64) <= i64::MAX,
                    forall|j: int| 0 <= j < offline@.len() ==> offline_for(
                        t1.spec_get(#[trigger] offline@[j]),
                        old(self).max_offline_blocks,
                        height,
                    ),
                    forall|h: TmHash| #[trigger] self.last_signed_block.spec_get(h) == if offline@.take(
                        m as int,
                    ).contains(h) && old(self).address_for_tm_hash.spec_get(h) is Some {
                        None
                    } else {
                        t1.spec_get(h)
                    },
                decreases offline@.len() - m,
            {
                let hash = offline[m];
                let ghost lsb0 = self.last_signed_block;
                match self.address_for_tm_hash.get(&hash) {
                    Some(address) => {
                        proof {
                            assert(old(self).address_for_tm_hash.spec_get(hash) is Some);
                            assert(offline_for(t1.spec_get(hash), old(self).max_offline_blocks, height));
                            assert(!old(self).quiet_block(*ctx));
                            assert(!signed_in(vs, hash));
                        }
                        let ghost pre_vals = self.validators;
                        let address = *address;
                        let in_active_set = match self.validators.get(address) {
                            Ok(child) => child.value().in_active_set,
                            Err(e) => {
                                return Err(e);
                            },
                        };
                        if in_active_set {
                            self.punish_downtime(address, now)?;
                        }
                        proof {
                            assert forall|a: Address|
                                (forall|h: TmHash|
                                    #[trigger] old(self).address_for_tm_hash.spec_get(h) == Some(a) ==> !(ctx.last_commit_info matches Some(
                                        votes,
                                    ) && !signed_in(votes@, h) && (old(self).last_signed_block.spec_get(h) matches Some(lh) && lh
                                        + old(self).max_offline_blocks < ctx.height))) implies #[trigger] self.validators.map.spec_get(a) == old(self).validators.map.spec_get(a) by {
                                if a == address {
                                    assert(old(self).address_for_tm_hash.spec_get(hash) == Some(address));
                                }
                                assert(self.validators.map.spec_get(a) == pre_vals.map.spec_get(a));
                            }
                        }
                        self.last_signed_block.remove(&hash);
                    },
                    None => {},
                }
                proof {
                    assert forall|h: TmHash| #[trigger] self.last_signed_block.spec_get(h) == if offline@.take(
                        m + 1,
                    ).contains(h) && old(self).address_for_tm_hash.spec_get(h) is Some {
                        None
                    } else {
                        t1.spec_get(h)
                    } by {
                        assert(offline@.take(m + 1) =~= offline@.take(m as int).push(hash));
                        assert(offline@.take(m + 1)[m as int] == hash);
                        if offline@.take(m as int).contains(h) {
                            let j = choose|j: int| 0 <= j < m && offline@.take(m as int)[j] == h;
                            assert(offline@.take(m + 1)[j] == h);
                        }
                        if offline@.take(m + 1).contains(h) && h != hash {
                            let j = choose|j: int| 0 <= j < m + 1 && #[trigger] offline@.take(m + 1)[j] == h;
                            assert(j < m);
                            assert(offline@.take(m as int)[j] == h);
                        }
                        assert(lsb0.spec_get(h) == if offline@.take(m as int).contains(h)
                            && old(self).address_for_tm_hash.spec_get(h) is Some {
                            None
                        } else {
                            t1.spec_get(h)
                        });
                    }
                }
                m = m + 1;
            }
            assert(offline@.take(offline@.len() as int) =~= offline@);
            proof {
                assert forall|h: TmHash| #[trigger] self.last_signed_block.spec_get(h) == if signed_in(vs, h) {
                    Some(height)
                } else if offline_for(old(self).last_signed_block.spec_get(h), old(self).max_offline_blocks, height)
                    && old(self).address_for_tm_hash.spec_get(h) is Some {
                    None
                } else {
                    old(self).last_signed_block.spec_get(h)
                } by {
                    if offline@.contains(h) {
                        let j = choose|j: int| 0 <= j < offline@.len() && offline@[j] == h;
                        assert(offline_for(t1.spec_get(offline@[j]), old(self).max_offline_blocks, height));
                    }
                    if !signed_in(vs, h) && offline_for(old(self).last_signed_block.spec_get(h), old(self).max_offline_blocks, height) {
                        assert(has_key(t1.entries@, h));
                        let t = choose|t: int| 0 <= t < t1.entries@.len() && (#[trigger] t1.entries@[t]).0 == h;
                        t1.lemma_value_at(t);
                    }
                }
            }
        }
        let ghost lsb_done = self.last_signed_block;
        let ghost vals_done = self.validators;
        let mut e: usize = 0;
        while e < ctx.byzantine_validators.len()
            invariant
                self.wf(),
                e <= ctx.byzantine_validators@.len(),
                self.consensus_keys == old(self).consensus_keys,
                self.address_for_tm_hash == old(self).address_for_tm_hash,
                self.settings_same(*old(self)),
                self.last_signed_block == lsb_done,
                ctx.byzantine_validators@.len() == 0 ==> self.validators == vals_done,
                old(self).quiet_block(*ctx) ==> ctx.byzantine_validators@.len() == 0,
                forall|j: int|
                    0 <= j < e ==> evidence_known(
                        #[trigger] ctx.byzantine_validators@[j],
                        old(self).address_for_tm_hash,
                    ),
            decreases ctx.byzantine_validators@.len() - e,
        {
            let evidence = &ctx.byzantine_validators[e];
            if let Some(validator_address) = &evidence.validator_address {
                let hash = match to_tm_hash(validator_address) {
                    Some(h) => h,
                    None => {
                        return Err(coins_error("Invalid pubkey length from Tendermint"));
                    },
                };
                match self.address_for_tm_hash.get(&hash) {
                    Some(address) => {
                        let address = *address;
                        proof {
                            assert(has_key(old(self).address_for_tm_hash.entries@, hash));
                        }
                        match evidence.kind {
                            EvidenceType::DuplicateVote => {
                                self.punish_double_sign(address)?;
                            },
                            EvidenceType::LightClientAttack => {
                                self.punish_light_client_attack(address)?;
                            },
                            EvidenceType::Unknown => {},
                        }
                    },
                    None => {
                        return Err(coins_error("Invalid pubkey length from Tendermint"));
                    },
                }
            }
            e = e + 1;
        }
        Ok(())
    }
}

} // verus!

verus! {

/// The signer of a call, or the error for an unsigned one.
pub fn require_signer(signer: Option<Address>) -> (r: Result<Address>)
    ensures
        signer matches Some(s) ==> r == Ok::<Address, Error>(s),
        signer is None ==> fails_with(r, "Call must be signed"@),
{
    match signer {
        Some(s) => Ok(s),
        None => Err(coins_error("Call must be signed")),
    }
}

impl<S: Symbol> Staking<S> {
    /// Initiate an unbond of the signer's staking tokens.
    pub fn unbond_self(&mut self, val_address: Address, amount: Amount, signer: Option<Address>, now: i64) -> (r:
        Result<()>)
        requires
            old(self).wf(),
        ensures
            final(self).wf(),
            amount.value == 0 ==> fails_with(r, "Amount must be positive"@) && *final(self) == *old(self),
            amount.value > 0 && signer is None ==> fails_with(r, "Call must be signed"@) && *final(self)
                == *old(self),
            final(self).consensus_keys == old(self).consensus_keys,
            final(self).settings_same(*old(self)),
    {
        assert_positive(amount)?;
        let signer = require_signer(signer)?;
        self.unbond(val_address, signer, amount, now)
    }

    /// Redelegates the signer's staking tokens from a source validator to a
    /// destination.
    pub fn redelegate_self(
        &mut self,
        src_val_address: Address,
        dst_val_address: Address,
        amount: Amount,
        signer: Option<Address>,
        now: i64,
    ) -> (r: Result<()>)
        requires
            old(self).wf(),
        ensures
            final(self).wf(),
            amount.value == 0 ==> fails_with(r, "Amount must be positive"@) && *final(self) == *old(self),
            amount.value > 0 && signer is None ==> fails_with(r, "Call must be signed"@) && *final(self)
                == *old(self),
            final(self).consensus_keys == old(self).consensus_keys,
            final(self).settings_same(*old(self)),
    {
        assert_positive(amount)?;
        let signer = require_signer(signer)?;
        self.redelegate(src_val_address, dst_val_address, signer, amount, now)
    }

    /// Declare a new validator, using the declared amount of staking tokens
    /// taken from the call's payment as initial self-delegation. The amount
    /// may be zero, which declares the validator with no self-delegation.
    pub fn declare_self<P: crate::coins::Take<S, Amount, Value = Coin<S>>>(
        &mut self,
        declaration: Declaration,
        signer: Option<Address>,
        paid: &mut P,
        val_ctx: &mut Validators,
    ) -> (r: Result<()>)
        requires
            old(self).wf(),
            old(paid).wf(),
            declaration.commission.wf(),
        ensures
            final(self).wf(),
            signer is None ==> fails_with(r, "Call must be signed"@) && *final(self) == *old(self),
    {
        let signer = require_signer(signer)?;
        let payment = paid.take(declaration.amount)?;
        self.declare(signer, declaration, payment, val_ctx)
    }

    /// Use staking tokens taken from the call's payment to delegate to a
    /// validator.
    pub fn delegate_from_self<P: crate::coins::Take<S, Amount, Value = Coin<S>>>(
        &mut self,
        validator_address: Address,
        amount: Amount,
        signer: Option<Address>,
        paid: &mut P,
    ) -> (r: Result<()>)
        requires
            old(self).wf(),
            old(paid).wf(),
        ensures
            final(self).wf(),
            amount.value == 0 ==> fails_with(r, "Amount must be positive"@) && *final(self) == *old(self),
            amount.value > 0 && signer is None ==> fails_with(r, "Call must be signed"@) && *final(self)
                == *old(self),
            final(self).consensus_keys == old(self).consensus_keys,
    {
        assert_positive(amount)?;
        let signer = require_signer(signer)?;
        let payment = paid.take(amount)?;
        self.delegate(validator_address, signer, payment)
    }

    /// Moves an amount of the signer's liquid tokens of a denom from a single
    /// delegation into the call's payment.
    pub fn take_as_funding<P: Give<(u8, Amount)>>(
        &mut self,
        validator_address: Address,
        amount: Amount,
        denom: u8,
        signer: Option<Address>,
        paid: &mut P,
        now: i64,
    ) -> (r: Result<()>)
        requires
            old(self).wf(),
            old(paid).wf(),
        ensures
            final(self).wf(),
            final(paid).wf(),
            amount.value == 0 ==> fails_with(r, "Amount must be positive"@) && *final(self) == *old(self)
                && *final(paid) == *old(paid),
            amount.value > 0 && signer is None ==> fails_with(r, "Call must be signed"@) && *final(self)
                == *old(self) && *final(paid) == *old(paid),
            final(self).same_but_validators(*old(self)),
            r is Ok ==> {
                &&& old(paid).give_post((denom, amount), *final(paid), r)
                &&& forall|v: Address, d: Address| #[trigger] final(self).stake_with(v, d) == old(self).stake_with(v, d)
                &&& forall|v: Address| v != validator_address ==> #[trigger] final(self).validators.map.spec_get(v)
                    == old(self).validators.map.spec_get(v)
            },
    {
        assert_positive(amount)?;
        let signer = require_signer(signer)?;
        self.deduct(validator_address, signer, amount, denom, now)?;
        paid.give((denom, amount))
    }

    /// Edit the signer's validator's metadata or fee policy.
    pub fn edit_validator_self(
        &mut self,
        commission: Decimal,
        min_self_delegation: Amount,
        validator_info: Vec<u8>,
        signer: Option<Address>,
        now: i64,
    ) -> (r: Result<()>)
        requires
            old(self).wf(),
            commission.wf(),
            now >= i64::MIN + EDIT_INTERVAL_SECONDS,
        ensures
            final(self).wf(),
            signer is None ==> fails_with(r, "Call must be signed"@) && *final(self) == *old(self),
            signer matches Some(s) ==> (old(self).spec_consensus_key(s) is None ==> fails_with(
                r,
                "Validator is not declared"@,
            ) && *final(self) == *old(self)),
            final(self).same_but_validators(*old(self)),
    {
        let val_address = require_signer(signer)?;
        let _ = self.consensus_key(val_address)?;
        self.edit_validator(val_address, commission, min_self_delegation, validator_info, now)
    }
}


impl<S: Symbol> Staking<S> {
    /// Rewards given to the stakers change no delegator's stake with any
    /// validator, nor the total amount staked, whether the reward is taken or
    /// refused.
    pub proof fn lemma_rewards_keep_stakes(before: Self, after: Self, denom: u8, amount: Amount, r: Result<()>)
        requires
            before.validators.give_denom_post(denom, amount, after.validators, r),
        ensures
            forall|v: Address, d: Address| #[trigger] after.stake_with(v, d) == before.stake_with(v, d),
            after.validators.contributions == before.validators.contributions,
    {
    }

    /// Coins given to staking are given to the validators' pool (as rewards
    /// of the coins' denom); giving fails while nothing is staked.
    pub fn give<T: Symbol>(&mut self, coins: Coin<T>) -> (r: Result<()>)
        requires
            old(self).wf(),
        ensures
            final(self).wf(),
            old(self).validators.give_denom_post(T::INDEX, coins.amount, final(self).validators, r),
            final(self).same_but_validators(*old(self)),
    {
        self.validators.give_denom(T::INDEX, coins.amount)
    }
}

impl<S: Symbol> Wf for Staking<S> {
    open spec fn wf(&self) -> bool {
        Staking::wf(self)
    }
}

} // verus!

verus! {


/// The positive liquid amounts in `l` of a delegation at validator `v`, in
/// order, as (validator, denom, amount).
pub open spec fn positive_liquid(v: Address, l: Seq<(u8, Amount)>) -> Seq<(Address, u8, Amount)>
    decreases l.len(),
{
    if l.len() == 0 {
        seq![]
    } else {
        let p = positive_liquid(v, l.drop_last());
        if l.last().1.value > 0 {
            p.push((v, l.last().0, l.last().1))
        } else {
            p
        }
    }
}

/// The positive liquid amounts of the first `n` delegations, delegation by
/// delegation.
pub open spec fn claimed(ds: Seq<(Address, super::delegator::DelegationInfo)>, n: int) -> Seq<(Address, u8, Amount)>
    decreases n,
{
    if n <= 0 {
        seq![]
    } else {
        claimed(ds, n - 1) + positive_liquid(ds[n - 1].0, ds[n - 1].1.liquid@)
    }
}

/// `ps` are the successive payments of the items: each gives the item's
/// amount of its denom.
pub open spec fn payments<P: Give<(u8, Amount)>>(ps: Seq<P>, items: Seq<(Address, u8, Amount)>) -> bool {
    &&& ps.len() == items.len() + 1
    &&& forall|i: int| #![trigger items[i]] 0 <= i < items.len() ==> ps[i].give_post((items[i].1, items[i].2), ps[i + 1], Ok(()))
}

/// `ss` are the successive states of taking the items: each step keeps every
/// stake and every validator but the item's.
pub open spec fn claim_steps<S: Symbol>(ss: Seq<Staking<S>>, items: Seq<(Address, u8, Amount)>) -> bool {
    &&& ss.len() == items.len() + 1
    &&& forall|i: int| #![trigger items[i]] 0 <= i < items.len() ==> claim_step(ss[i], ss[i + 1], items[i].0)
}

/// Taking a claimed amount at validator `v` keeps every stake and every
/// validator but `v`.
pub open spec fn claim_step<S: Symbol>(s: Staking<S>, s2: Staking<S>, v: Address) -> bool {
    &&& forall|a: Address| a != v ==> #[trigger] s2.validators.map.spec_get(a) == s.validators.map.spec_get(a)
    &&& forall|w: Address, d: Address| #[trigger] s2.stake_with(w, d) == s.stake_with(w, d)
}

/// `ds` reports, for each validator the delegator is indexed under in
/// `old`, the delegation stored in `s`: its liquid balance.
pub open spec fn reports_delegations<S: Symbol>(
    old: Staking<S>,
    s: Staking<S>,
    delegator: Address,
    ds: Seq<(Address, super::delegator::DelegationInfo)>,
) -> bool {
    &&& ds.len() == old.indexed_validators(delegator).len()
    &&& forall|i: int| 0 <= i < ds.len() ==> #[trigger] ds[i].0 == old.indexed_validators(delegator)[i]
    &&& forall|i: int|
        0 <= i < ds.len() && (#[trigger] s.delegation_stored(ds[i].0, delegator)) is Some
            ==> super::delegator::info_describes(ds[i].1, s.delegation_stored(ds[i].0, delegator)->0)
}

impl<S: Symbol> Staking<S> {
    /// The delegation a delegator has stored at a validator, if any.
    pub open spec fn delegation_stored(&self, val_address: Address, delegator_address: Address) -> Option<Delegator<S>> {
        match self.validators.map.spec_get(val_address) {
            Some(e) => match e.inner.delegators.map.spec_get(delegator_address) {
                Some(de) => Some(de.inner),
                None => None,
            },
            None => None,
        }
    }

    /// A delegator's indexed validators are distinct.
    pub proof fn lemma_indexed_distinct(&self, delegator_address: Address)
        requires
            self.wf(),
        ensures
            forall|j1: int, j2: int|
                0 <= j1 < j2 < self.indexed_validators(delegator_address).len() ==> #[trigger] self.indexed_validators(
                    delegator_address,
                )[j1] != #[trigger] self.indexed_validators(delegator_address)[j2],
    {
        if let Some(m) = self.delegation_index.spec_get(delegator_address) {
            let t = choose|t: int| 0 <= t < self.delegation_index.entries@.len() && (#[trigger] self.delegation_index.entries@[t]).0 == delegator_address;
            assert(m.wf());
            assert forall|j1: int, j2: int|
                0 <= j1 < j2 < self.indexed_validators(delegator_address).len() implies #[trigger] self.indexed_validators(
                    delegator_address,
                )[j1] != #[trigger] self.indexed_validators(delegator_address)[j2] by {
                assert(m.entries@[j1].0.key_lt(m.entries@[j2].0));
                Address::lemma_key_order(m.entries@[j1].0, m.entries@[j2].0, m.entries@[j2].0);
            }
        }
    }

    /// The validators that a delegator has delegated to, in address order.
    pub open spec fn indexed_validators(&self, delegator_address: Address) -> Seq<Address> {
        match self.delegation_index.spec_get(delegator_address) {
            Some(m) => m.entries@.map_values(|e: (Address, ())| e.0),
            None => Seq::empty(),
        }
    }

    /// Query all delegations of a delegator: for each validator it has
    /// delegated to, the summary of its delegation (brought up to date).
    pub fn delegations(&mut self, delegator_address: Address) -> (r: Result<
        Vec<(Address, super::delegator::DelegationInfo)>,
    >)
        requires
            old(self).wf(),
        ensures
            final(self).wf(),
            final(self).same_but_validators(*old(self)),
            r matches Ok(v) ==> v@.len() == old(self).indexed_validators(delegator_address).len()
                && forall|i: int| 0 <= i < v@.len() ==> #[trigger] v@[i].0 == old(self).indexed_validators(delegator_address)[i],
            r is Ok ==> forall|v: Address, d: Address| #[trigger] final(self).stake_with(v, d) == old(self).stake_with(v, d),
            r matches Ok(v) ==> forall|i: int|
                0 <= i < v@.len() && (#[trigger] final(self).delegation_stored(v@[i].0, delegator_address)) is Some
                    ==> super::delegator::info_describes(
                    v@[i].1,
                    final(self).delegation_stored(v@[i].0, delegator_address)->0,
                ),
    {
        let mut vals: Vec<Address> = Vec::new();
        let ghost target = self.indexed_validators(delegator_address);
        match self.delegation_index.get(&delegator_address) {
            Some(m) => {
                let mut i: usize = 0;
                while i < m.entries.len()
                    invariant
                        i <= m.entries@.len(),
                        target == m.entries@.map_values(|e: (Address, ())| e.0),
                        vals@ == target.take(i as int),
                    decreases m.entries@.len() - i,
                {
                    vals.push(m.entries[i].0);
                    i = i + 1;
                    assert(vals@ =~= target.take(i as int));
                }
                assert(target.take(target.len() as int) =~= target);
            },
            None => {
                assert(vals@ =~= target);
            },
        }
        assert(vals@ == self.indexed_validators(delegator_address));
        proof {
            self.lemma_indexed_distinct(delegator_address);
        }
        let mut out: Vec<(Address, super::delegator::DelegationInfo)> = Vec::new();
        let mut k: usize = 0;
        while k < vals.len()
            invariant
                self.wf(),
                self.same_but_validators(*old(self)),
                k <= vals@.len(),
                vals@ == old(self).indexed_validators(delegator_address),
                out@.len() == k,
                forall|j: int| 0 <= j < k ==> #[trigger] out@[j].0 == vals@[j],
                forall|v: Address, d: Address| #[trigger] self.stake_with(v, d) == old(self).stake_with(v, d),
                forall|j1: int, j2: int| 0 <= j1 < j2 < vals@.len() ==> #[trigger] vals@[j1] != #[trigger] vals@[j2],
                forall|j: int|
                    0 <= j < k && (#[trigger] self.delegation_stored(vals@[j], delegator_address)) is Some
                        ==> super::delegator::info_describes(
                        out@[j].1,
                        self.delegation_stored(vals@[j], delegator_address)->0,
                    ),
            decreases vals@.len() - k,
        {
            let val_address = vals[k];
            let ghost before = *self;
            let mut validator = self.checkout(val_address)?;
            let ghost p1 = validator.entry.inner.delegators;
            let got = validator.entry.inner.delegators.get(delegator_address);
            let ghost got_ok = got is Ok;
            let ghost got_val: Option<Delegator<S>> = match &got {
                Ok(c) => Some(*c.spec_value()),
                Err(_) => None,
            };
            let info = match got {
                Ok(child) => child.value().info(),
                Err(e) => Err(e),
            };
            proof {
                if got_ok {
                    let q = validator.entry.inner.delegators;
                    let (e0, e1, period) = choose|
                        e0: crate::coins::pool::Entry<Delegator<S>>,
                        e1: crate::coins::pool::Entry<Delegator<S>>,
                        period: Seq<(u8, Decimal)>,
                    |
                        {
                            &&& #[trigger] crate::coins::pool::stored_or_empty::<Delegator<S>, S>(
                                p1.map.spec_get(delegator_address),
                                e0,
                            )
                            &&& #[trigger] crate::coins::pool::adjusted(p1.contributions, p1.shares_issued, period, e0, e1)
                            &&& p1.map.spec_get(delegator_address) is Some ==> q.map.spec_get(delegator_address) == Some(e1)
                            &&& p1.map.spec_get(delegator_address) is None ==> q.map.spec_get(delegator_address) is None
                            &&& got_val == Some(e1.inner)
                        };
                    if info is Ok && q.map.spec_get(delegator_address) is Some {
                        assert(super::delegator::info_describes(info->Ok_0, q.map.spec_get(delegator_address)->0.inner));
                    }
                    super::validator::lemma_adjusted_keeps_stake(p1.contributions, p1.shares_issued, period, e0, e1);
                    assert forall|d: Address| #[trigger] stake_in(q, d) == stake_in(p1, d) by {
                        if d != delegator_address {
                            assert(q.map.spec_get(d) == p1.map.spec_get(d));
                        }
                    }
                }
            }
            let ghost ve = validator.entry.inner;
            self.checkin(validator);
            let info = info?;
            proof {
                assert forall|v: Address, d: Address| #[trigger] self.stake_with(v, d) == before.stake_with(v, d) by {
                    if v == val_address {
                        assert(self.stake_with(v, d) == stake_in(ve.delegators, d));
                        assert(stake_in(ve.delegators, d) == stake_in(p1, d));
                        if let Some(e) = before.validators.map.spec_get(v) {
                            assert(stake_in(p1, d) == stake_in(e.inner.delegators, d));
                        }
                    }
                }
            }
            let ghost out0 = out@;
            out.push((val_address, info));
            proof {
                assert forall|j: int|
                    0 <= j < k + 1 && (#[trigger] self.delegation_stored(vals@[j], delegator_address)) is Some
                        implies super::delegator::info_describes(
                        out@[j].1,
                        self.delegation_stored(vals@[j], delegator_address)->0,
                    ) by {
                    if j < k {
                        assert(vals@[j] != vals@[k as int]);
                        assert(self.validators.map.spec_get(vals@[j]) == before.validators.map.spec_get(vals@[j]));
                        assert(out@[j] == out0[j]);
                        assert(self.delegation_stored(vals@[j], delegator_address) == before.delegation_stored(
                            vals@[j],
                            delegator_address,
                        ));
                    } else {
                        assert(self.validators.map.spec_get(val_address)->0.inner == ve);
                        assert(out@[j].1 == info);
                        assert(self.delegation_stored(val_address, delegator_address) == Some(
                            ve.delegators.map.spec_get(delegator_address)->0.inner,
                        ));
                        assert(ve.delegators.map.spec_get(delegator_address) is Some);
                        assert(super::delegator::info_describes(info, ve.delegators.map.spec_get(delegator_address)->0.inner));
                    }
                }
            }
            k = k + 1;
        }
        Ok(out)
    }

    /// `k` is the address of one of the listed delegations.
    pub open spec fn listed(v: Seq<(Address, super::delegator::DelegationInfo)>, k: Address) -> bool {
        exists|i: int| 0 <= i < v.len() && (#[trigger] v[i]).0 == k
    }

    /// The listed delegations are those of the pool's delegators: each
    /// delegator is listed, and each listed address is a delegator.
    pub open spec fn lists_delegators(
        p: crate::coins::Pool<Address, Delegator<S>, S>,
        v: Seq<(Address, super::delegator::DelegationInfo)>,
    ) -> bool {
        forall|k: Address| #[trigger] p.map.spec_get(k) is Some <==> Self::listed(v, k)
    }

    /// Query all delegations to a validator: each delegator's address with
    /// the summary of its delegation (brought up to date).
    pub fn validator_delegations(&mut self, validator_address: Address) -> (r: Result<
        Vec<(Address, super::delegator::DelegationInfo)>,
    >)
        requires
            old(self).wf(),
        ensures
            final(self).wf(),
            final(self).same_but_validators(*old(self)),
            r matches Ok(v) ==> final(self).validators.map.spec_get(validator_address) is Some && Self::lists_delegators(
                final(self).validators.map.spec_get(validator_address)->0.inner.delegators,
                v@,
            ),
    {
        let mut validator = self.checkout(validator_address)?;
        let keys = validator.entry.inner.delegators.keys();
        let ghost p0 = validator.entry.inner.delegators;
        let mut out: Vec<(Address, super::delegator::DelegationInfo)> = Vec::new();
        let mut i: usize = 0;
        while i < keys.len()
            invariant
                self.wf(),
                self.same_but_validators(*old(self)),
                validator.entry.wf(),
                validator.initial_balance.wf(),
                validator.key == validator_address,
                i <= keys@.len(),
                out@.len() == i,
                keys@.len() == p0.map.entries@.len(),
                forall|j: int| 0 <= j < keys@.len() ==> #[trigger] keys@[j] == p0.map.entries@[j].0,
                forall|j: int| 0 <= j < i ==> #[trigger] out@[j].0 == keys@[j],
                forall|k: Address| #[trigger] validator.entry.inner.delegators.map.spec_get(k) is Some
                    <==> p0.map.spec_get(k) is Some,
            decreases keys@.len() - i,
        {
            let ghost before = validator.entry.inner.delegators;
            let got = validator.entry.inner.delegators.get(keys[i]);
            let ghost got_ok = got is Ok;
            let info = match got {
                Ok(child) => child.value().info(),
                Err(e) => Err(e),
            };
            proof {
                if got_ok {
                    assert forall|k: Address| #[trigger] validator.entry.inner.delegators.map.spec_get(k) is Some
                        <==> p0.map.spec_get(k) is Some by {
                        if k != keys@[i as int] {
                            assert(validator.entry.inner.delegators.map.spec_get(k) == before.map.spec_get(k));
                        }
                    }
                }
            }
            match info {
                Ok(info) => out.push((keys[i], info)),
                Err(e) => {
                    self.checkin(validator);
                    return Err(e);
                },
            }
            i = i + 1;
        }
        let ghost fin = validator.entry.inner.delegators;
        self.checkin(validator);
        proof {
            assert forall|k: Address| #[trigger] fin.map.spec_get(k) is Some <==> Self::listed(out@, k) by {
                if p0.map.spec_get(k) is Some {
                    let j = choose|j: int| 0 <= j < p0.map.entries@.len() && (#[trigger] p0.map.entries@[j]).0 == k;
                    assert(out@[j].0 == k);
                }
                if Self::listed(out@, k) {
                    let j = choose|j: int| 0 <= j < out@.len() && (#[trigger] out@[j]).0 == k;
                    assert(keys@[j] == k);
                    assert(p0.map.entries@[j].0 == k);
                    assert(has_key(p0.map.entries@, k));
                }
            }
            assert(self.validators.map.spec_get(validator_address)->0.inner.delegators == fin);
        }
        Ok(out)
    }

    /// Query all validators (expensive): the query information of each, in
    /// address order.
    pub fn all_validators(&mut self) -> (r: Result<Vec<super::validator::ValidatorQueryInfo>>)
        requires
            old(self).wf(),
        ensures
            final(self).wf(),
            final(self).same_but_validators(*old(self)),
            r matches Ok(v) ==> v@.len() == old(self).validators.map.entries@.len(),
            old(self).validators.settled() && (forall|i: int|
                0 <= i < old(self).validators.map.entries@.len()
                    ==> (#[trigger] old(self).validators.map.entries@[i]).1.inner.delegators.contributions.amount_spec() is Some)
                ==> (r matches Ok(v) && forall|i: int|
                0 <= i < v@.len() ==> old(self).validators.map.entries@[i].1.inner.described_by(#[trigger] v@[i])),
    {
        let keys = self.validators.keys();
        let ghost good = old(self).validators.settled() && (forall|i: int|
            0 <= i < old(self).validators.map.entries@.len()
                ==> (#[trigger] old(self).validators.map.entries@[i]).1.inner.delegators.contributions.amount_spec() is Some);
        let mut out: Vec<super::validator::ValidatorQueryInfo> = Vec::new();
        let mut i: usize = 0;
        while i < keys.len()
            invariant
                self.wf(),
                self.same_but_validators(*old(self)),
                i <= keys@.len(),
                out@.len() == i,
                old(self).wf(),
                keys@.len() == old(self).validators.map.entries@.len(),
                forall|j: int| 0 <= j < keys@.len() ==> #[trigger] keys@[j] == old(self).validators.map.entries@[j].0,
                good == (old(self).validators.settled() && (forall|i: int|
                    0 <= i < old(self).validators.map.entries@.len()
                        ==> (#[trigger] old(self).validators.map.entries@[i]).1.inner.delegators.contributions.amount_spec() is Some)),
                good ==> self.validators.settled(),
                good ==> forall|k: Address| #[trigger] self.validators.map.spec_get(k) == old(self).validators.map.spec_get(k),
                good ==> forall|j: int| 0 <= j < i ==> old(self).validators.map.entries@[j].1.inner.described_by(#[trigger] out@[j]),
            decreases keys@.len() - i,
        {
            let ghost pre = *self;
            proof {
                old(self).validators.map.lemma_value_at(i as int);
            }
            let got = self.validators.get(keys[i]);
            let ghost got_val: Option<Validator<S>> = match &got {
                Ok(child) => Some(*child.spec_value()),
                Err(_) => None,
            };
            let info = match got {
                Ok(child) => child.value().query_info(),
                Err(e) => Err(e),
            };
            proof {
                assert(self.same_but_validators(pre));
                if good {
                    assert(got_val == Some(old(self).validators.map.entries@[i as int].1.inner));
                    assert forall|k: Address| #[trigger] self.validators.map.spec_get(k) == old(self).validators.map.spec_get(k) by {
                        if k != keys@[i as int] {
                            assert(self.validators.map.spec_get(k) == pre.validators.map.spec_get(k));
                        }
                    }
                }
            }
            let info = info?;
            out.push(info);
            i = i + 1;
        }
        Ok(out)
    }

    /// Query all consensus keys, with each validator's operator address, in
    /// the validators' order.
    pub fn consensus_keys(&self) -> (r: Result<Vec<(Address, [u8; 32])>>)
        requires
            self.wf(),
        ensures
            r matches Ok(v) ==> v@.len() == self.validators.map.entries@.len() && forall|i: int|
                0 <= i < v@.len() ==> #[trigger] v@[i].0 == self.validators.map.entries@[i].1.inner.address
                    && self.spec_consensus_key(v@[i].0) == Some(v@[i].1),
            (exists|i: int|
                0 <= i < self.validators.map.entries@.len() && self.spec_consensus_key(
                    (#[trigger] self.validators.map.entries@[i]).1.inner.address,
                ) is None) ==> r is Err,
            (forall|i: int|
                0 <= i < self.validators.map.entries@.len() ==> self.spec_consensus_key(
                    (#[trigger] self.validators.map.entries@[i]).1.inner.address,
                ) is Some) ==> r is Ok,
    {
        let mut out: Vec<(Address, [u8; 32])> = Vec::new();
        let mut i: usize = 0;
        while i < self.validators.map.entries.len()
            invariant
                self.wf(),
                i <= self.validators.map.entries@.len(),
                out@.len() == i,
                forall|j: int| 0 <= j < i ==> #[trigger] out@[j].0 == self.validators.map.entries@[j].1.inner.address
                    && self.spec_consensus_key(out@[j].0) == Some(out@[j].1),
                forall|j: int| 0 <= j < i ==> self.spec_consensus_key(
                    (#[trigger] self.validators.map.entries@[j]).1.inner.address,
                ) is Some,
            decreases self.validators.map.entries@.len() - i,
        {
            let address = self.validators.map.entries[i].1.inner.address;
            let key = self.consensus_key(address)?;
            out.push((address, key));
            i = i + 1;
        }
        Ok(out)
    }

    /// The last height at which the validator with this consensus key
    /// signed, if recorded.
    pub open spec fn signed_height(&self, key: [u8; 32]) -> Option<u64> {
        self.last_signed_block.spec_get(choose|h: TmHash| h@ == tm_hash_of(key))
    }

    /// Query the last signed block height of every declared validator, in
    /// address order.
    pub fn last_signed_blocks(&self) -> (r: Result<Vec<(Address, Option<u64>)>>)
        requires
            self.wf(),
        ensures
            r matches Ok(v) && v@.len() == self.consensus_keys.entries@.len() && forall|i: int|
                0 <= i < v@.len() ==> (#[trigger] v@[i]).0 == self.consensus_keys.entries@[i].0
                    && v@[i].1 == self.signed_height(self.consensus_keys.entries@[i].1),
    {
        let mut out: Vec<(Address, Option<u64>)> = Vec::new();
        let mut i: usize = 0;
        while i < self.consensus_keys.entries.len()
            invariant
                self.wf(),
                i <= self.consensus_keys.entries@.len(),
                out@.len() == i,
                forall|j: int| 0 <= j < i ==> (#[trigger] out@[j]).0 == self.consensus_keys.entries@[j].0
                    && out@[j].1 == self.signed_height(self.consensus_keys.entries@[j].1),
            decreases self.consensus_keys.entries@.len() - i,
        {
            let (address, cons_key) = self.consensus_keys.entries[i];
            let hash = match tm_pubkey_hash(cons_key) {
                Ok(h) => h,
                Err(e) => {
                    return Err(e);
                },
            };
            let last = match self.last_signed_block.get(&hash) {
                Some(v) => Some(*v),
                None => None,
            };
            proof {
                let h = choose|h: TmHash| h@ == tm_hash_of(cons_key);
                lemma_hash_unique(h, hash);
            }
            out.push((address, last));
            i = i + 1;
        }
        Ok(out)
    }

    /// Claim all rewards of the signer, moving every positive liquid amount
    /// of each of its delegations into the call's payment.
    pub fn claim_all<P: Give<(u8, Amount)>>(&mut self, signer: Option<Address>, paid: &mut P, now: i64) -> (r:
        Result<()>)
        requires
            old(self).wf(),
            old(paid).wf(),
        ensures
            final(self).wf(),
            final(paid).wf(),
            signer is None ==> fails_with(r, "Call must be signed"@) && *final(self) == *old(self)
                && *final(paid) == *old(paid),
            final(self).same_but_validators(*old(self)),
            r is Ok ==> forall|v: Address, d: Address| #[trigger] final(self).stake_with(v, d) == old(self).stake_with(v, d),
            r is Ok ==> exists|ds: Seq<(Address, super::delegator::DelegationInfo)>, ss: Seq<Staking<S>>, ps: Seq<P>|
                {
                    &&& #[trigger] reports_delegations(*old(self), ss[0], signer->0, ds)
                    &&& claim_steps(ss, claimed(ds, ds.len() as int))
                    &&& ss.last() == *final(self)
                    &&& #[trigger] payments(ps, claimed(ds, ds.len() as int))
                    &&& ps[0] == *old(paid)
                    &&& ps.last() == *final(paid)
                },
    {
        let signer_address = require_signer(signer)?;
        let delegations = self.delegations(signer_address)?;
        let ghost s1 = *self;
        let ghost p0 = *paid;
        let ghost mut ss: Seq<Staking<S>> = seq![*self];
        let ghost mut ps: Seq<P> = seq![*paid];
        let ghost mut items: Seq<(Address, u8, Amount)> = seq![];
        assert(reports_delegations(*old(self), s1, signer_address, delegations@));
        let mut i: usize = 0;
        while i < delegations.len()
            invariant
                self.wf(),
                paid.wf(),
                self.same_but_validators(*old(self)),
                forall|v: Address, d: Address| #[trigger] self.stake_with(v, d) == old(self).stake_with(v, d),
                signer == Some(signer_address),
                i <= delegations@.len(),
                items == claimed(delegations@, i as int),
                claim_steps(ss, items),
                ss[0] == s1,
                ss.last() == *self,
                payments(ps, items),
                ps[0] == p0,
                ps.last() == *paid,
                p0 == *old(paid),
            decreases delegations@.len() - i,
        {
            let val_address = delegations[i].0;
            let liquid = &delegations[i].1.liquid;
            let mut j: usize = 0;
            while j < liquid.len()
                invariant
                    self.wf(),
                    paid.wf(),
                    self.same_but_validators(*old(self)),
                    forall|v: Address, d: Address| #[trigger] self.stake_with(v, d) == old(self).stake_with(v, d),
                    signer == Some(signer_address),
                    i < delegations@.len(),
                    j <= liquid@.len(),
                    liquid@ == delegations@[i as int].1.liquid@,
                    val_address == delegations@[i as int].0,
                    items == claimed(delegations@, i as int) + positive_liquid(val_address, liquid@.take(j as int)),
                    claim_steps(ss, items),
                    ss[0] == s1,
                    ss.last() == *self,
                    payments(ps, items),
                    ps[0] == p0,
                    ps.last() == *paid,
                    p0 == *old(paid),
                decreases liquid@.len() - j,
            {
                let (denom, amount) = liquid[j];
                assert(liquid@.take(j + 1).drop_last() =~= liquid@.take(j as int));
                assert(liquid@.take(j + 1).last() == liquid@[j as int]);
                if amount.value > 0 {
                    let ghost sprev = *self;
                    let ghost pprev = *paid;
                    self.take_as_funding(val_address, amount, denom, signer, paid, now)?;
                    proof {
                        let x = (val_address, denom, amount);
                        let items2 = items.push(x);
                        assert(items2 =~= claimed(delegations@, i as int) + positive_liquid(val_address, liquid@.take(j + 1)));
                        let ss2 = ss.push(*self);
                        let ps2 = ps.push(*paid);
                        assert(claim_step(sprev, *self, val_address));
                        assert(claim_steps(ss2, items2)) by {
                            assert forall|t: int| #![trigger items2[t]] 0 <= t < items2.len() implies claim_step(ss2[t], ss2[t + 1], items2[t].0) by {
                                if t < items.len() {
                                    assert(ss2[t] == ss[t] && ss2[t + 1] == ss[t + 1] && items2[t] == items[t]);
                                } else {
                                    assert(ss2[t] == sprev && ss2[t + 1] == *self && items2[t] == x);
                                }
                            }
                        }
                        assert(payments(ps2, items2)) by {
                            assert forall|t: int| #![trigger items2[t]] 0 <= t < items2.len() implies ps2[t].give_post(
                                (items2[t].1, items2[t].2),
                                ps2[t + 1],
                                Ok(()),
                            ) by {
                                if t < items.len() {
                                    assert(ps2[t] == ps[t] && ps2[t + 1] == ps[t + 1] && items2[t] == items[t]);
                                } else {
                                    assert(ps2[t] == pprev && ps2[t + 1] == *paid && items2[t] == x);
                                }
                            }
                        }
                        items = items2;
                        ss = ss2;
                        ps = ps2;
                    }
                } else {
                    assert(items =~= claimed(delegations@, i as int) + positive_liquid(val_address, liquid@.take(j + 1)));
                }
                j = j + 1;
            }
            assert(liquid@.take(liquid@.len() as int) =~= liquid@);
            assert(items == claimed(delegations@, i + 1));
            i = i + 1;
        }
        assert(payments(ps, claimed(delegations@, delegations@.len() as int)));
        Ok(())
    }
}

} // verus!
