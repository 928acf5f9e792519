//! The ABCI state machine: how consensus requests are routed, how the
//! writes of a block and of the mempool are buffered, and what a commit does
//! with them.
pub mod bufmap;
pub mod machine;
pub mod transaction;
