//! The ledger as a mathematical value, and each operation as a function on
//! that value. The executable ledger is specified against these functions;
//! the laws of the ledger are proved of them.

use vstd::prelude::*;
use crate::records::{
    ContractError, DataKey, Direction, PoolModel, RewardModel, RewardType, Transfer, TransferModel, BASIS_POINTS,
    SECONDS_PER_DAY,
};

verus! {

/// `a / b` rounded toward zero, for a positive `b`.
pub open spec fn quotient_toward_zero(a: int, b: int) -> int {
    if a >= 0 {
        a / b
    } else {
        -((-a) / b)
    }
}

/// What a reward pays out of a pool whose total is `total_amount`: a
/// fixed reward its amount, a percentage reward that many ten-thousandths
/// of the total, rounded toward zero.
pub open spec fn payout(total_amount: int, reward: RewardModel) -> int {
    match reward.reward_type {
        RewardType::Fixed => reward.amount,
        RewardType::Percentage => quotient_toward_zero(total_amount * reward.amount, BASIS_POINTS as int),
    }
}

/// The last moment at which a reward assigned at `now` for `valid_days`
/// days can be claimed.
pub open spec fn expiry(now: int, valid_days: int) -> int {
    now + valid_days * SECONDS_PER_DAY
}

/// Whether `x` can be held in an `i128`.
pub open spec fn fits_i128(x: int) -> bool {
    i128::MIN <= x <= i128::MAX
}

/// Whether an operation that reports `outcome` and turns the state
/// `before` into `after` does what `expected` holds: it reports success
/// and leaves the expected state, or it reports the expected refusal and
/// leaves the state as it was.
pub open spec fn carried_out(
    outcome: Result<(), ContractError>,
    expected: Result<ContractState, ContractError>,
    before: ContractState,
    after: ContractState,
) -> bool {
    match expected {
        Ok(next) => outcome is Ok && after == next,
        Err(e) => outcome == Err::<(), ContractError>(e) && after == before,
    }
}

/// Whether `request` is what `expected` holds: the expected transfer, or
/// the expected refusal.
pub open spec fn requested(
    request: Result<Transfer, ContractError>,
    expected: Result<TransferModel, ContractError>,
) -> bool {
    match expected {
        Ok(transfer) => request is Ok && request->Ok_0@ == transfer,
        Err(e) => request is Err && request->Err_0 == e,
    }
}

/// The records that exist once the ledger is initialised.
#[verifier::ext_equal]
pub struct InstanceState {
    /// The administrator.
    pub admin: Seq<char>,
    /// The pool's accounts.
    pub pool: PoolModel,
    /// Each user's rewards, in the order in which they were assigned.
    pub rewards: Map<Seq<char>, Seq<RewardModel>>,
}

/// The whole state of the ledger.
#[verifier::ext_equal]
pub struct ContractState {
    /// The administrator, pool and rewards; `None` before initialisation.
    pub instance: Option<InstanceState>,
    /// The user and index of every reward that was paid out.
    pub claimed: Set<(Seq<char>, int)>,
}

impl InstanceState {
    /// The rewards of `user`, empty if none was ever assigned.
    pub open spec fn rewards_of(self, user: Seq<char>) -> Seq<RewardModel> {
        if self.rewards.contains_key(user) {
            self.rewards[user]
        } else {
            Seq::empty()
        }
    }

    /// What the pool has left to pay.
    pub open spec fn available(self) -> int {
        self.pool.total_amount - self.pool.distributed
    }

    /// The test that every administrative operation starts with: the
    /// caller is the administrator and has authorised the call.
    pub open spec fn admin_gate(
        self,
        caller: Seq<char>,
        authorized: bool,
    ) -> Result<(), ContractError> {
        if caller != self.admin {
            Err(ContractError::Unauthorized)
        } else if !authorized {
            Err(ContractError::Unauthorized)
        } else {
            Ok(())
        }
    }
}

impl ContractState {
    /// The state before initialisation: no records at all.
    pub open spec fn blank() -> ContractState {
        ContractState { instance: None, claimed: Set::empty() }
    }

    /// The state of an initialised ledger with these records and no
    /// rewards or marks.
    pub open spec fn restored(admin: Seq<char>, pool: PoolModel) -> ContractState {
        ContractState {
            instance: Some(InstanceState { admin, pool, rewards: Map::empty() }),
            claimed: Set::empty(),
        }
    }

    /// The state with the record of the rewards of `user` written anew.
    pub open spec fn with_rewards(
        self,
        user: Seq<char>,
        rewards: Seq<RewardModel>,
    ) -> Result<ContractState, ContractError> {
        match self.instance {
            None => Err(ContractError::NotFound),
            Some(instance) => Ok(
                ContractState {
                    instance: Some(InstanceState { rewards: instance.rewards.insert(user, rewards), ..instance }),
                    ..self
                },
            ),
        }
    }

    /// The state with the reward of `user` at `reward_index` marked as
    /// paid out.
    pub open spec fn with_claim(self, user: Seq<char>, reward_index: int) -> ContractState {
        ContractState { claimed: self.claimed.insert((user, reward_index)), ..self }
    }

    /// The administrator, once the ledger is initialised.
    pub open spec fn admin(self) -> Option<Seq<char>> {
        match self.instance {
            Some(instance) => Some(instance.admin),
            None => None,
        }
    }

    /// Whether the reward of `user` at `reward_index` was paid out.
    pub open spec fn is_claimed(self, user: Seq<char>, reward_index: int) -> bool {
        self.claimed.contains((user, reward_index))
    }

    /// The rewards of `user`, empty if there are none.
    pub open spec fn user_rewards(self, user: Seq<char>) -> Seq<RewardModel> {
        match self.instance {
            Some(instance) => instance.rewards_of(user),
            None => Seq::empty(),
        }
    }

    /// The pool's accounts, once the ledger is initialised.
    pub open spec fn pool_info(self) -> Result<PoolModel, ContractError> {
        match self.instance {
            Some(instance) => Ok(instance.pool),
            None => Err(ContractError::NotFound),
        }
    }

    /// Whether `caller` is the administrator.
    pub open spec fn is_admin(self, caller: Seq<char>) -> bool {
        self.instance matches Some(instance) && instance.admin == caller
    }

    /// Whether the state holds a record of the given kind.
    pub open spec fn has(self, key: DataKey) -> bool {
        match key {
            DataKey::Admin => self.instance is Some,
            DataKey::RewardPool => self.instance is Some,
            DataKey::UserRewards => self.instance is Some,
            DataKey::RewardClaimed => exists|pair: (Seq<char>, int)| self.claimed.contains(pair),
        }
    }

    /// Sets the administrator and opens the pool, once.
    pub open spec fn initialize(
        self,
        admin: Seq<char>,
        token: Seq<char>,
        initial_amount: int,
    ) -> Result<ContractState, ContractError> {
        if self.instance is Some {
            Err(ContractError::AlreadyInitialized)
        } else {
            Ok(
                ContractState {
                    instance: Some(
                        InstanceState {
                            admin,
                            pool: PoolModel { token, total_amount: initial_amount, distributed: 0, active: true },
                            rewards: Map::empty(),
                        },
                    ),
                    claimed: self.claimed,
                },
            )
        }
    }

    /// The transfer that a deposit needs, if the deposit is admitted.
    pub open spec fn deposit_request(
        self,
        from: Seq<char>,
        amount: int,
        authorized: bool,
    ) -> Result<TransferModel, ContractError> {
        match self.instance {
            None => Err(ContractError::NotFound),
            Some(instance) => match instance.admin_gate(from, authorized) {
                Err(e) => Err(e),
                Ok(_) => Ok(
                    TransferModel { token: instance.pool.token, direction: Direction::IntoPool, party: from, amount },
                ),
            },
        }
    }

    /// Adds `amount` to the pool's total, if the deposit is admitted and
    /// its transfer went through.
    pub open spec fn deposit_to_pool(
        self,
        from: Seq<char>,
        amount: int,
        authorized: bool,
        transferred: bool,
    ) -> Result<ContractState, ContractError> {
        match self.deposit_request(from, amount, authorized) {
            Err(e) => Err(e),
            Ok(_) => if !transferred {
                Err(ContractError::TransferFailed)
            } else {
                let instance = self.instance->Some_0;
                Ok(
                    ContractState {
                        instance: Some(
                            InstanceState {
                                pool: PoolModel { total_amount: instance.pool.total_amount + amount, ..instance.pool },
                                ..instance
                            },
                        ),
                        ..self
                    },
                )
            },
        }
    }

    /// Whether an assignment by `admin` is admitted. An inactive pool is
    /// what is reported first, whoever asks; only an active pool looks at
    /// the caller.
    pub open spec fn assign_gate(
        self,
        admin: Seq<char>,
        authorized: bool,
    ) -> Result<(), ContractError> {
        match self.instance {
            None => Err(ContractError::NotFound),
            Some(instance) => if !instance.pool.active {
                Err(ContractError::PoolInactive)
            } else {
                instance.admin_gate(admin, authorized)
            },
        }
    }

    /// Appends a reward in the pool's token to the rewards of `to`, valid
    /// for `valid_days` days from `now`, if the assignment is admitted.
    pub open spec fn assign_reward(
        self,
        admin: Seq<char>,
        to: Seq<char>,
        reward_type: RewardType,
        amount: int,
        valid_days: int,
        authorized: bool,
        now: int,
    ) -> Result<ContractState, ContractError> {
        match self.assign_gate(admin, authorized) {
            Err(e) => Err(e),
            Ok(_) => {
                let instance = self.instance->Some_0;
                let reward = RewardModel {
                    token: instance.pool.token,
                    reward_type,
                    amount,
                    valid_until: expiry(now, valid_days),
                };
                Ok(
                    ContractState {
                        instance: Some(
                            InstanceState {
                                rewards: instance.rewards.insert(to, instance.rewards_of(to).push(reward)),
                                ..instance
                            },
                        ),
                        ..self
                    },
                )
            },
        }
    }

    /// The reward that a claim is about, if the claim gets as far as
    /// working out what to pay: the user has authorised it, the reward was
    /// not paid out before, it exists, and it is still valid at `now`.
    pub open spec fn claimable(
        self,
        user: Seq<char>,
        reward_index: int,
        authorized: bool,
        now: int,
    ) -> Result<RewardModel, ContractError> {
        if !authorized {
            Err(ContractError::Unauthorized)
        } else if self.is_claimed(user, reward_index) {
            Err(ContractError::AlreadyClaimed)
        } else {
            match self.instance {
                None => Err(ContractError::NotFound),
                Some(instance) => if !instance.rewards.contains_key(user) {
                    Err(ContractError::NoRewardsAssigned)
                } else if !(0 <= reward_index < instance.rewards[user].len()) {
                    Err(ContractError::IndexOutOfBounds)
                } else if now > instance.rewards[user][reward_index].valid_until {
                    Err(ContractError::RewardExpired)
                } else {
                    Ok(instance.rewards[user][reward_index])
                },
            }
        }
    }

    /// The transfer that a claim needs, if the claim is admitted and the
    /// pool can pay it.
    pub open spec fn claim_request(
        self,
        user: Seq<char>,
        reward_index: int,
        authorized: bool,
        now: int,
    ) -> Result<TransferModel, ContractError> {
        match self.claimable(user, reward_index, authorized, now) {
            Err(e) => Err(e),
            Ok(reward) => {
                let instance = self.instance->Some_0;
                let amount = payout(instance.pool.total_amount, reward);
                if instance.available() < amount {
                    Err(ContractError::InsufficientFunds)
                } else {
                    Ok(
                        TransferModel {
                            token: instance.pool.token,
                            direction: Direction::OutOfPool,
                            party: user,
                            amount,
                        },
                    )
                }
            },
        }
    }

    /// Books the payout of a claim and marks the reward as paid, if the
    /// claim is admitted, the pool can pay it and its transfer went
    /// through.
    pub open spec fn claim_reward(
        self,
        user: Seq<char>,
        reward_index: int,
        authorized: bool,
        now: int,
        transferred: bool,
    ) -> Result<ContractState, ContractError> {
        match self.claim_request(user, reward_index, authorized, now) {
            Err(e) => Err(e),
            Ok(transfer) => if !transferred {
                Err(ContractError::TransferFailed)
            } else {
                let instance = self.instance->Some_0;
                Ok(
                    ContractState {
                        instance: Some(
                            InstanceState {
                                pool: PoolModel {
                                    distributed: instance.pool.distributed + transfer.amount,
                                    ..instance.pool
                                },
                                ..instance
                            },
                        ),
                        claimed: self.claimed.insert((user, reward_index)),
                    },
                )
            },
        }
    }

    /// Opens or closes the pool for new assignments.
    pub open spec fn set_pool_status(
        self,
        admin: Seq<char>,
        active: bool,
        authorized: bool,
    ) -> Result<ContractState, ContractError> {
        match self.instance {
            None => Err(ContractError::NotFound),
            Some(instance) => match instance.admin_gate(admin, authorized) {
                Err(e) => Err(e),
                Ok(_) => Ok(
                    ContractState {
                        instance: Some(InstanceState { pool: PoolModel { active, ..instance.pool }, ..instance }),
                        ..self
                    },
                ),
            },
        }
    }

    /// Whether the total that a deposit books, where it is booked, can be
    /// held in the pool's accounts.
    pub open spec fn deposit_in_range(
        self,
        from: Seq<char>,
        amount: int,
        authorized: bool,
        transferred: bool,
    ) -> bool {
        self.deposit_to_pool(from, amount, authorized, transferred) is Ok ==> fits_i128(
            self.instance->Some_0.pool.total_amount + amount,
        )
    }

    /// Whether the expiry that an admitted assignment gives its reward can
    /// be held in a reward.
    pub open spec fn assign_in_range(
        self,
        admin: Seq<char>,
        valid_days: int,
        authorized: bool,
        now: int,
    ) -> bool {
        self.assign_gate(admin, authorized) is Ok ==> expiry(now, valid_days) <= u64::MAX
    }

    /// Whether the sums that a claim works out on its way can be held in
    /// the pool's accounts: the product behind a percentage and what the
    /// pool has left, and, where the claim is booked, what the pool has
    /// distributed after it.
    pub open spec fn claim_in_range(
        self,
        user: Seq<char>,
        reward_index: int,
        authorized: bool,
        now: int,
        transferred: bool,
    ) -> bool {
        self.claimable(user, reward_index, authorized, now) matches Ok(reward) ==> {
            let instance = self.instance->Some_0;
            &&& reward.reward_type == RewardType::Percentage ==> fits_i128(
                instance.pool.total_amount * reward.amount,
            )
            &&& fits_i128(instance.available())
            &&& self.claim_reward(user, reward_index, authorized, now, transferred) is Ok ==> fits_i128(
                instance.pool.distributed + payout(instance.pool.total_amount, reward),
            )
        }
    }
}

/// One call of an operation of the ledger, with all that it is given.
pub enum Operation {
    Initialize { admin: Seq<char>, token: Seq<char>, initial_amount: int },
    Deposit { from: Seq<char>, amount: int, authorized: bool, transferred: bool },
    Assign {
        admin: Seq<char>,
        to: Seq<char>,
        reward_type: RewardType,
        amount: int,
        valid_days: int,
        authorized: bool,
        now: int,
    },
    Claim { user: Seq<char>, reward_index: int, authorized: bool, now: int, transferred: bool },
    SetStatus { admin: Seq<char>, active: bool, authorized: bool },
}

impl Operation {
    /// Whether the operation brings no negative amount of tokens: none to
    /// open the pool with, none to deposit, none to assign.
    pub open spec fn without_negative_amount(self) -> bool {
        match self {
            Operation::Initialize { initial_amount, .. } => initial_amount >= 0,
            Operation::Deposit { amount, .. } => amount >= 0,
            Operation::Assign { amount, .. } => amount >= 0,
            Operation::Claim { .. } => true,
            Operation::SetStatus { .. } => true,
        }
    }
}

impl ContractState {
    /// What the operation returns the state as, or why it refuses.
    pub open spec fn apply(self, op: Operation) -> Result<ContractState, ContractError> {
        match op {
            Operation::Initialize { admin, token, initial_amount } => self.initialize(admin, token, initial_amount),
            Operation::Deposit { from, amount, authorized, transferred } => self.deposit_to_pool(
                from,
                amount,
                authorized,
                transferred,
            ),
            Operation::Assign { admin, to, reward_type, amount, valid_days, authorized, now } => self.assign_reward(
                admin,
                to,
                reward_type,
                amount,
                valid_days,
                authorized,
                now,
            ),
            Operation::Claim { user, reward_index, authorized, now, transferred } => self.claim_reward(
                user,
                reward_index,
                authorized,
                now,
                transferred,
            ),
            Operation::SetStatus { admin, active, authorized } => self.set_pool_status(admin, active, authorized),
        }
    }

    /// The state after the operation was tried: a refused operation
    /// leaves the state as it was.
    pub open spec fn after(self, op: Operation) -> ContractState {
        match self.apply(op) {
            Ok(next) => next,
            Err(_) => self,
        }
    }

    /// The state after the operations were tried one after the other.
    pub open spec fn after_all(self, ops: Seq<Operation>) -> ContractState
        decreases ops.len(),
    {
        if ops.len() == 0 {
            self
        } else {
            self.after_all(ops.drop_last()).after(ops.last())
        }
    }

    /// What the pool has distributed; nothing before initialisation.
    pub open spec fn distributed(self) -> int {
        match self.instance {
            Some(instance) => instance.pool.distributed,
            None => 0,
        }
    }

    /// Whether the pool's accounts are in order and no reward is of a
    /// negative amount: what was distributed is not negative and not more
    /// than the total.
    pub open spec fn solvent(self) -> bool {
        self.instance matches Some(instance) ==> {
            &&& 0 <= instance.pool.distributed <= instance.pool.total_amount
            &&& forall|user: Seq<char>, i: int|
                instance.rewards.contains_key(user) && 0 <= i < instance.rewards[user].len()
                    ==> #[trigger] instance.rewards[user][i].amount >= 0
        }
    }
}

} // verus!
