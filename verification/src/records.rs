//! The records that the ledger keeps and hands out, each with the
//! mathematical value that the contracts speak of.

use vstd::prelude::*;
use crate::address::Address;

verus! {

/// Seconds in one day of validity.
pub const SECONDS_PER_DAY: u64 = 86400;

/// The number of basis points that make the whole pool.
pub const BASIS_POINTS: i128 = 10000;

/// The kinds of record that make up the stored state.
#[derive(Clone, Copy, Debug, PartialEq, Eq, Structural)]
pub enum DataKey {
    /// The administrator's address.
    Admin,
    /// The pool's accounts.
    RewardPool,
    /// The rewards assigned to each user.
    UserRewards,
    /// The markers of the rewards that were paid out.
    RewardClaimed,
}

/// How the amount of a reward is to be read.
#[derive(Clone, Copy, Debug, PartialEq, Eq, Structural)]
pub enum RewardType {
    /// The amount is paid out as it stands.
    Fixed,
    /// The amount is a share of the pool's total, in basis points.
    Percentage,
}

/// Why an operation did not take effect.
#[derive(Clone, Copy, Debug, PartialEq, Eq, Structural)]
pub enum ContractError {
    /// The ledger has an administrator already.
    AlreadyInitialized,
    /// The acting party is not the administrator, or has not authorised the call.
    Unauthorized,
    /// The pool takes no new assignments.
    PoolInactive,
    /// The reward was paid out before.
    AlreadyClaimed,
    /// The user has no rewards at all.
    NoRewardsAssigned,
    /// The user has no reward at that index.
    IndexOutOfBounds,
    /// The reward's validity ended before the call.
    RewardExpired,
    /// The pool has less left than the reward pays.
    InsufficientFunds,
    /// The token transfer that the operation needs did not go through.
    TransferFailed,
    /// The ledger was never initialised, so its records are missing.
    NotFound,
}

/// Which way tokens move between a party and the pool's custody.
#[derive(Clone, Copy, Debug, PartialEq, Eq, Structural)]
pub enum Direction {
    /// From the party into the pool.
    IntoPool,
    /// From the pool to the party.
    OutOfPool,
}

/// A reward as the contracts see it.
pub struct RewardModel {
    pub token: Seq<char>,
    pub reward_type: RewardType,
    pub amount: int,
    pub valid_until: int,
}

/// A reward assigned to a user.
#[derive(Debug, PartialEq, Eq)]
pub struct Reward {
    /// The token that the pool held when the reward was assigned.
    pub token: Address,
    /// How `amount` is to be read.
    pub reward_type: RewardType,
    /// A number of tokens, or a share of the pool in basis points.
    pub amount: i128,
    /// The last ledger time at which the reward can be claimed.
    pub valid_until: u64,
}

impl View for Reward {
    type V = RewardModel;

    open spec fn view(&self) -> RewardModel {
        RewardModel {
            token: self.token@,
            reward_type: self.reward_type,
            amount: self.amount as int,
            valid_until: self.valid_until as int,
        }
    }
}

impl Clone for Reward {
    fn clone(&self) -> (copy: Reward)
        ensures
            copy@ == self@,
    {
        Reward {
            token: self.token.clone(),
            reward_type: self.reward_type,
            amount: self.amount,
            valid_until: self.valid_until,
        }
    }
}

/// The pool's accounts as the contracts see them.
pub struct PoolModel {
    pub token: Seq<char>,
    pub total_amount: int,
    pub distributed: int,
    pub active: bool,
}

/// The accounts of the pool.
#[derive(Debug, PartialEq, Eq)]
pub struct RewardPool {
    /// The token that the pool holds and pays.
    pub token: Address,
    /// All that was ever put into the pool.
    pub total_amount: i128,
    /// All that was ever paid out of it.
    pub distributed: i128,
    /// Whether new rewards may be assigned.
    pub active: bool,
}

impl View for RewardPool {
    type V = PoolModel;

    open spec fn view(&self) -> PoolModel {
        PoolModel {
            token: self.token@,
            total_amount: self.total_amount as int,
            distributed: self.distributed as int,
            active: self.active,
        }
    }
}

impl Clone for RewardPool {
    fn clone(&self) -> (copy: RewardPool)
        ensures
            copy@ == self@,
    {
        RewardPool {
            token: self.token.clone(),
            total_amount: self.total_amount,
            distributed: self.distributed,
            active: self.active,
        }
    }
}

/// A token transfer as the contracts see it.
pub struct TransferModel {
    pub token: Seq<char>,
    pub direction: Direction,
    pub party: Seq<char>,
    pub amount: int,
}

/// A token transfer between a party and the pool's custody, for the host
/// to carry out.
#[derive(Debug, PartialEq, Eq)]
pub struct Transfer {
    /// The token to move.
    pub token: Address,
    /// Which way it moves.
    pub direction: Direction,
    /// The party at the other end from the pool.
    pub party: Address,
    /// How much of it moves.
    pub amount: i128,
}

impl View for Transfer {
    type V = TransferModel;

    open spec fn view(&self) -> TransferModel {
        TransferModel {
            token: self.token@,
            direction: self.direction,
            party: self.party@,
            amount: self.amount as int,
        }
    }
}

/// The values of a sequence of rewards, in order.
pub open spec fn reward_models(rewards: Seq<Reward>) -> Seq<RewardModel> {
    Seq::new(rewards.len(), |i: int| rewards[i]@)
}

} // verus!
