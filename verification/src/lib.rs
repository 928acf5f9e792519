//! Deterministic state machine building blocks: coins, pools, staking
//! accounting and collections, with their behavior proved by Verus.
use vstd::prelude::*;

pub mod abci;
pub mod coins;
pub mod call;
pub mod client;
pub mod collections;
pub mod error;
pub mod store;

verus! {

} // verus!
