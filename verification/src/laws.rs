//! What holds of the ledger whatever is done with it, proved of the
//! functions that the executable ledger is specified against.

use vstd::prelude::*;
use crate::model::{fits_i128, payout, ContractState, InstanceState, Operation};
use crate::records::{ContractError, Direction, PoolModel, RewardModel, RewardType, TransferModel};

verus! {

/// Whether `shorter` is the beginning of `longer`.
pub open spec fn starts_with(longer: Seq<RewardModel>, shorter: Seq<RewardModel>) -> bool {
    shorter.len() <= longer.len() && forall|i: int| 0 <= i < shorter.len() ==> longer[i] == shorter[i]
}

/// A reward of no negative amount pays no negative amount out of a pool
/// whose total is not negative.
pub proof fn lemma_payout_not_negative(total_amount: int, reward: RewardModel)
    requires
        total_amount >= 0,
        reward.amount >= 0,
    ensures
        payout(total_amount, reward) >= 0,
{
    assert(total_amount * reward.amount >= 0) by (nonlinear_arith)
        requires
            total_amount >= 0,
            reward.amount >= 0,
    ;
}

/// A percentage reward pays the pool's total times its basis points,
/// divided by ten thousand and rounded down, wherever that product is not
/// negative.
pub proof fn lemma_percentage_payout_rounds_down(total_amount: int, reward: RewardModel)
    requires
        reward.reward_type == RewardType::Percentage,
        total_amount * reward.amount >= 0,
    ensures
        payout(total_amount, reward) == (total_amount * reward.amount) / 10000,
        10000 * payout(total_amount, reward) <= total_amount * reward.amount < 10000 * payout(
            total_amount,
            reward,
        ) + 10000,
{
}

/// A fixed reward pays its amount, whatever the pool holds.
pub proof fn lemma_fixed_payout_is_amount(total_amount: int, reward: RewardModel)
    requires
        reward.reward_type == RewardType::Fixed,
    ensures
        payout(total_amount, reward) == reward.amount,
{
}

/// One operation keeps the pool's accounts in order and takes nothing
/// back from what was distributed, unless it takes effect and brings a
/// negative amount. An operation that is refused brings what it will.
pub proof fn lemma_step_keeps_solvent(state: ContractState, op: Operation)
    requires
        state.solvent(),
        state.apply(op) is Ok ==> op.without_negative_amount(),
    ensures
        state.after(op).solvent(),
        state.distributed() <= state.after(op).distributed(),
{
    let next = state.after(op);
    if state.apply(op) is Ok {
        match op {
            Operation::Initialize { .. } => {},
            Operation::Deposit { .. } => {},
            Operation::Assign { admin, to, reward_type, amount, valid_days, authorized, now } => {
                let before = state.instance->Some_0;
                let after = next.instance->Some_0;
                assert forall|user: Seq<char>, i: int|
                    after.rewards.contains_key(user) && 0 <= i < after.rewards[user].len()
                    implies #[trigger] after.rewards[user][i].amount >= 0 by {
                    if user == to {
                        if i < before.rewards_of(to).len() {
                            assert(before.rewards[user][i].amount >= 0);
                        }
                    } else {
                        assert(before.rewards[user][i].amount >= 0);
                    }
                }
            },
            Operation::Claim { user, reward_index, authorized, now, transferred } => {
                let before = state.instance->Some_0;
                let reward = before.rewards[user][reward_index];
                assert(reward.amount >= 0);
                lemma_payout_not_negative(before.pool.total_amount, reward);
            },
            Operation::SetStatus { .. } => {},
        }
    }
}

/// Along any run of operations in which none that takes effect brings a
/// negative amount, started where the pool's accounts are in order, they
/// stay in order: what the pool has distributed never exceeds its total,
/// and it never decreases from one point of the run to a later one.
pub proof fn lemma_distributed_never_decreases(
    start: ContractState,
    ops: Seq<Operation>,
    earlier: int,
    later: int,
)
    requires
        start.solvent(),
        forall|i: int|
            0 <= i < ops.len() && start.after_all(ops.subrange(0, i)).apply(#[trigger] ops[i]) is Ok
                ==> ops[i].without_negative_amount(),
        0 <= earlier <= later <= ops.len(),
    ensures
        start.after_all(ops.subrange(0, later)).solvent(),
        start.after_all(ops.subrange(0, earlier)).distributed() <= start.after_all(
            ops.subrange(0, later),
        ).distributed(),
    decreases later,
{
    if later == 0 {
        assert(ops.subrange(0, 0).len() == 0);
    } else {
        let run = ops.subrange(0, later);
        assert(run.drop_last() =~= ops.subrange(0, later - 1));
        assert(run.last() == ops[later - 1]);
        if earlier == later {
            lemma_distributed_never_decreases(start, ops, later - 1, later - 1);
        } else {
            lemma_distributed_never_decreases(start, ops, earlier, later - 1);
        }
        lemma_step_keeps_solvent(start.after_all(ops.subrange(0, later - 1)), ops[later - 1]);
    }
}

/// The state before initialisation has its accounts in order, so the run
/// of any ledger from its beginning is covered by
/// `lemma_distributed_never_decreases`.
pub proof fn lemma_blank_is_solvent()
    ensures
        ContractState::blank().solvent(),
{
}

/// One operation removes no record: the ledger stays initialised with the
/// same administrator and the same token, every reward stays at its index
/// with new ones only behind it, and every mark of a paid reward stays.
pub proof fn lemma_step_keeps_records(state: ContractState, op: Operation)
    ensures
        state.claimed.subset_of(state.after(op).claimed),
        state.instance matches Some(before) ==> {
            &&& state.after(op).instance matches Some(after)
            &&& after.admin == before.admin
            &&& after.pool.token == before.pool.token
            &&& forall|user: Seq<char>| #[trigger] starts_with(after.rewards_of(user), before.rewards_of(user))
        },
{
    if state.instance is Some && state.apply(op) is Ok {
        let before = state.instance->Some_0;
        let after = state.after(op).instance->Some_0;
        assert forall|user: Seq<char>| #[trigger] starts_with(after.rewards_of(user), before.rewards_of(user)) by {}
    }
}

/// A run of operations removes no record: see `lemma_step_keeps_records`.
pub proof fn lemma_run_keeps_records(start: ContractState, ops: Seq<Operation>)
    ensures
        start.claimed.subset_of(start.after_all(ops).claimed),
        start.instance matches Some(before) ==> {
            &&& start.after_all(ops).instance matches Some(after)
            &&& after.admin == before.admin
            &&& after.pool.token == before.pool.token
            &&& forall|user: Seq<char>| #[trigger] starts_with(after.rewards_of(user), before.rewards_of(user))
        },
    decreases ops.len(),
{
    if ops.len() > 0 {
        let middle = start.after_all(ops.drop_last());
        lemma_run_keeps_records(start, ops.drop_last());
        lemma_step_keeps_records(middle, ops.last());
        if start.instance is Some {
            let before = start.instance->Some_0;
            let between = middle.instance->Some_0;
            let after = start.after_all(ops).instance->Some_0;
            assert forall|user: Seq<char>| #[trigger] starts_with(after.rewards_of(user), before.rewards_of(user)) by {
                assert(starts_with(between.rewards_of(user), before.rewards_of(user)));
                assert(starts_with(after.rewards_of(user), between.rewards_of(user)));
            }
        }
    } else {
        if start.instance is Some {
            let before = start.instance->Some_0;
            assert forall|user: Seq<char>| #[trigger] starts_with(before.rewards_of(user), before.rewards_of(user)) by {}
        }
    }
}

/// A reward is paid out at most once. After a claim that took effect, and
/// whatever was done since, no claim of the same reward takes effect: one
/// that the user has authorised is refused as `AlreadyClaimed`, one that
/// the user has not authorised as `Unauthorized`.
pub proof fn lemma_claimed_at_most_once(
    state: ContractState,
    user: Seq<char>,
    reward_index: int,
    now: int,
    since: Seq<Operation>,
    authorized_again: bool,
    now_again: int,
    transferred_again: bool,
)
    requires
        state.claim_reward(user, reward_index, true, now, true) is Ok,
    ensures
        ({
            let paid = state.claim_reward(user, reward_index, true, now, true)->Ok_0;
            let again = paid.after_all(since).claim_reward(
                user,
                reward_index,
                authorized_again,
                now_again,
                transferred_again,
            );
            &&& again is Err
            &&& authorized_again ==> again == Err::<ContractState, ContractError>(ContractError::AlreadyClaimed)
            &&& !authorized_again ==> again == Err::<ContractState, ContractError>(ContractError::Unauthorized)
        }),
{
    let paid = state.claim_reward(user, reward_index, true, now, true)->Ok_0;
    assert(paid.claimed.contains((user, reward_index)));
    lemma_run_keeps_records(paid, since);
}

/// What a claim that takes effect does. Where the user has authorised
/// the claim, the reward exists, was not paid out and is still valid, the
/// pool has its payout left and the transfer went through: the claim
/// asks for one transfer of the payout, in the pool's token, out of the
/// pool to the user; it adds the payout to what the pool has distributed
/// and marks the reward as paid; and it changes nothing else, neither
/// the pool's total, token or status, nor the administrator, nor any
/// reward. The payout is worked out of the pool's total at the time of
/// the claim, and whether the pool is active plays no part.
pub proof fn lemma_claim_takes_effect(state: ContractState, user: Seq<char>, reward_index: int, now: int)
    requires
        state.instance is Some,
        state.instance->Some_0.rewards.contains_key(user),
        0 <= reward_index < state.instance->Some_0.rewards[user].len(),
        !state.is_claimed(user, reward_index),
        now <= state.instance->Some_0.rewards[user][reward_index].valid_until,
        state.instance->Some_0.available() >= payout(
            state.instance->Some_0.pool.total_amount,
            state.instance->Some_0.rewards[user][reward_index],
        ),
    ensures
        ({
            let instance = state.instance->Some_0;
            let reward = instance.rewards[user][reward_index];
            let amount = payout(instance.pool.total_amount, reward);
            &&& state.claim_request(user, reward_index, true, now) == Ok::<TransferModel, ContractError>(
                TransferModel { token: instance.pool.token, direction: Direction::OutOfPool, party: user, amount },
            )
            &&& state.claim_reward(user, reward_index, true, now, true) == Ok::<ContractState, ContractError>(
                ContractState {
                    instance: Some(
                        InstanceState {
                            admin: instance.admin,
                            pool: PoolModel {
                                token: instance.pool.token,
                                total_amount: instance.pool.total_amount,
                                distributed: instance.pool.distributed + amount,
                                active: instance.pool.active,
                            },
                            rewards: instance.rewards,
                        },
                    ),
                    claimed: state.claimed.insert((user, reward_index)),
                },
            )
            &&& reward.reward_type == RewardType::Fixed ==> amount == reward.amount
            &&& reward.reward_type == RewardType::Percentage && instance.pool.total_amount * reward.amount >= 0
                ==> amount == (instance.pool.total_amount * reward.amount) / 10000
        }),
{
}

/// On a pool whose accounts are in order and can be held in the pool's
/// accounts, a claim is in range as soon as the product behind a
/// percentage is: what the pool has left and what it has distributed
/// after the claim lie between nothing and the total.
pub proof fn lemma_claim_in_range_of_solvent_pool(
    state: ContractState,
    user: Seq<char>,
    reward_index: int,
    authorized: bool,
    now: int,
    transferred: bool,
)
    requires
        state.solvent(),
        state.instance matches Some(instance) ==> fits_i128(instance.pool.total_amount),
        state.claimable(user, reward_index, authorized, now) matches Ok(reward) ==> (reward.reward_type
            == RewardType::Percentage ==> fits_i128(state.instance->Some_0.pool.total_amount * reward.amount)),
    ensures
        state.claim_in_range(user, reward_index, authorized, now, transferred),
{
    if state.claimable(user, reward_index, authorized, now) is Ok {
        let instance = state.instance->Some_0;
        let reward = instance.rewards[user][reward_index];
        assert(reward.amount >= 0);
        lemma_payout_not_negative(instance.pool.total_amount, reward);
    }
}

/// A claim after the reward's last moment of validity is refused as
/// `RewardExpired`, where the user has authorised it and the reward
/// exists and was not paid out. Up to and at that moment the same claim
/// is not refused for its time: it takes effect exactly if the pool has
/// the payout left and the transfer went through.
pub proof fn lemma_claim_until_expiry(
    state: ContractState,
    user: Seq<char>,
    reward_index: int,
    now: int,
    transferred: bool,
)
    requires
        state.instance is Some,
        state.instance->Some_0.rewards.contains_key(user),
        0 <= reward_index < state.instance->Some_0.rewards[user].len(),
        !state.is_claimed(user, reward_index),
    ensures
        ({
            let instance = state.instance->Some_0;
            let reward = instance.rewards[user][reward_index];
            let outcome = state.claim_reward(user, reward_index, true, now, transferred);
            &&& now > reward.valid_until ==> outcome == Err::<ContractState, ContractError>(
                ContractError::RewardExpired,
            )
            &&& now <= reward.valid_until ==> (outcome is Ok <==> transferred && instance.available() >= payout(
                instance.pool.total_amount,
                reward,
            ))
            &&& now <= reward.valid_until ==> outcome != Err::<ContractState, ContractError>(
                ContractError::RewardExpired,
            )
        }),
{
}

/// While the pool is inactive every assignment is refused as
/// `PoolInactive` and changes nothing, whoever makes it and whether the
/// caller has authorised it or not.
pub proof fn lemma_inactive_pool_takes_no_assignment(
    state: ContractState,
    caller: Seq<char>,
    to: Seq<char>,
    reward_type: RewardType,
    amount: int,
    valid_days: int,
    authorized: bool,
    now: int,
)
    requires
        state.instance is Some,
        !state.instance->Some_0.pool.active,
    ensures
        state.assign_reward(caller, to, reward_type, amount, valid_days, authorized, now) == Err::<
            ContractState,
            ContractError,
        >(ContractError::PoolInactive),
        state.after(
            Operation::Assign { admin: caller, to, reward_type, amount, valid_days, authorized, now },
        ) == state,
{
}

/// The ledger is initialised once. After an initialisation that took
/// effect, and whatever was done since, every initialisation is refused
/// as `AlreadyInitialized`, whatever it brings.
pub proof fn lemma_initialized_once(
    state: ContractState,
    admin: Seq<char>,
    token: Seq<char>,
    initial_amount: int,
    since: Seq<Operation>,
    admin_again: Seq<char>,
    token_again: Seq<char>,
    initial_amount_again: int,
)
    requires
        state.initialize(admin, token, initial_amount) is Ok,
    ensures
        state.initialize(admin, token, initial_amount)->Ok_0.after_all(since).initialize(
            admin_again,
            token_again,
            initial_amount_again,
        ) == Err::<ContractState, ContractError>(ContractError::AlreadyInitialized),
{
    lemma_run_keeps_records(state.initialize(admin, token, initial_amount)->Ok_0, since);
}

/// An operation that is refused changes nothing, and a transfer that did
/// not go through has every deposit and every claim refused.
pub proof fn lemma_failed_transfer_changes_nothing(state: ContractState, op: Operation)
    ensures
        state.apply(op) is Err ==> state.after(op) == state,
        op matches Operation::Deposit { transferred, .. } ==> !transferred ==> state.apply(op) is Err,
        op matches Operation::Claim { transferred, .. } ==> !transferred ==> state.apply(op) is Err,
{
}

} // verus!
