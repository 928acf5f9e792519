//! Cosmos-style staking.
//!
//! The staking system is a [Pool](crate::coins::Pool) of validators, and each
//! validator is a pool of delegators (plus some extra state at each level).
pub mod delegator;
pub use delegator::{
    DelegationInfo, Delegator, Redelegation, Unbond, UnbondInfo, UNBONDING_SECONDS,
};
pub mod validator;
pub use validator::{Commission, SlashableRedelegation, Status, Validator, ValidatorQueryInfo};
pub mod keys;
pub use keys::{TmHash, ValidatorPowerEntry, ValidatorQueueEntry};
pub mod staking;
pub use staking::{
    Declaration, RedelegationEntry, Staking, UnbondingDelegationEntry, Validators,
};
