//! A reward pool ledger: an administrator funds a pool of one token, assigns
//! rewards to users, and each user claims each reward once, while it is
//! valid and the pool can pay it.
//!
//! The ledger is an explicit state value. What the surrounding host knows
//! (the ledger time, whether the acting party has authorised the call,
//! whether a token transfer went through) is handed to each operation as a
//! plain argument, and every operation either takes effect as a whole or
//! leaves the state as it was.

pub mod address;
pub mod contract;
pub mod laws;
pub mod model;
pub mod records;

pub use address::Address;
pub use contract::{check_reward_validity, RewardDistributionContract};
pub use records::{ContractError, DataKey, Direction, Reward, RewardPool, RewardType, Transfer};
