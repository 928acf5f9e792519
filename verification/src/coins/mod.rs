//! Coins: integer and decimal amounts, tokens, shares, pools and staking.
pub mod amount;
pub use amount::Amount;
pub mod decimal;
pub use decimal::Decimal;
pub mod ops;
pub mod traits;
pub use traits::{Balance, Deduct, Give, Symbol, Take, Transfer, Wf};
pub mod coin;
pub use coin::Coin;
pub mod share;
pub use share::Share;
pub mod multishare;
pub use multishare::MultiShare;
pub mod denom_map;
pub mod pool;
pub use pool::Pool;
pub mod address;
pub use address::Address;
pub mod staking;
pub mod faucet;
pub use faucet::{Faucet, FaucetOptions};
pub mod accounts;
pub use accounts::Accounts;
pub mod ratio;
pub use ratio::Ratio;
