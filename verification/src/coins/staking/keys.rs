//! Ordered keys of the staking indices and queues.
use vstd::prelude::*;

use crate::coins::address::bytes_lt_from;
use crate::coins::Address;
use crate::collections::ordered_map::OrderedKey;

verus! {

/// A Tendermint public key hash: 20 bytes.
pub type TmHash = [u8; 20];

impl OrderedKey for [u8; 20] {
    /// Byte order.
    open spec fn key_lt(self, other: Self) -> bool {
        bytes_lt_from(self@, other@, 0)
    }

    fn key_less(&self, other: &Self) -> (r: bool) {
        Address { bytes: *self }.key_less(&Address { bytes: *other })
    }

    fn key_eq(&self, other: &Self) -> (r: bool) {
        Address { bytes: *self }.key_eq(&Address { bytes: *other })
    }

    proof fn lemma_key_order(a: Self, b: Self, c: Self) {
        Address::lemma_key_order(Address { bytes: a }, Address { bytes: b }, Address { bytes: c });
    }
}

/// An entry of the index of validators by voting power.
#[derive(Clone, Copy, Debug)]
pub struct ValidatorPowerEntry {
    /// `u64::MAX - power`, so that ascending order is descending power.
    pub inverted_power: u64,
    /// Validator operator address bytes.
    pub address_bytes: [u8; 20],
}

impl ValidatorPowerEntry {
    /// Uninverted voting power.
    pub fn power(&self) -> (r: u64)
        ensures
            r == u64::MAX - self.inverted_power,
    {
        u64::MAX - self.inverted_power
    }
}

impl OrderedKey for ValidatorPowerEntry {
    /// By inverted power (descending power), then by address bytes.
    open spec fn key_lt(self, other: Self) -> bool {
        self.inverted_power < other.inverted_power || (self.inverted_power == other.inverted_power
            && bytes_lt_from(self.address_bytes@, other.address_bytes@, 0))
    }

    fn key_less(&self, other: &Self) -> (r: bool) {
        if self.inverted_power != other.inverted_power {
            self.inverted_power < other.inverted_power
        } else {
            Address { bytes: self.address_bytes }.key_less(&Address { bytes: other.address_bytes })
        }
    }

    fn key_eq(&self, other: &Self) -> (r: bool) {
        self.inverted_power == other.inverted_power && Address { bytes: self.address_bytes }.key_eq(
            &Address { bytes: other.address_bytes },
        )
    }

    proof fn lemma_key_order(a: Self, b: Self, c: Self) {
        Address::lemma_key_order(
            Address { bytes: a.address_bytes },
            Address { bytes: b.address_bytes },
            Address { bytes: c.address_bytes },
        );
    }
}

/// An entry in the validator queue, used to track progress toward a validator
/// status change.
#[derive(Clone, Copy, Debug)]
pub struct ValidatorQueueEntry {
    /// The time at which the validator began unbonding, in unix seconds.
    pub start_seconds: i64,
    /// The operator address bytes of the unbonding validator.
    pub address_bytes: [u8; 20],
}

impl OrderedKey for ValidatorQueueEntry {
    /// By start time, then by address bytes.
    open spec fn key_lt(self, other: Self) -> bool {
        self.start_seconds < other.start_seconds || (self.start_seconds == other.start_seconds
            && bytes_lt_from(self.address_bytes@, other.address_bytes@, 0))
    }

    fn key_less(&self, other: &Self) -> (r: bool) {
        if self.start_seconds != other.start_seconds {
            self.start_seconds < other.start_seconds
        } else {
            Address { bytes: self.address_bytes }.key_less(&Address { bytes: other.address_bytes })
        }
    }

    fn key_eq(&self, other: &Self) -> (r: bool) {
        self.start_seconds == other.start_seconds && Address { bytes: self.address_bytes }.key_eq(
            &Address { bytes: other.address_bytes },
        )
    }

    proof fn lemma_key_order(a: Self, b: Self, c: Self) {
        Address::lemma_key_order(
            Address { bytes: a.address_bytes },
            Address { bytes: b.address_bytes },
            Address { bytes: c.address_bytes },
        );
    }
}

} // verus!
