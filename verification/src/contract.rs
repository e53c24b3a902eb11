//! The executable ledger.

use vstd::prelude::*;
use crate::address::Address;
use crate::model::{carried_out, requested, ContractState, InstanceState};
use crate::records::{
    reward_models, ContractError, DataKey, Direction, PoolModel, Reward, RewardModel, RewardPool, RewardType,
    Transfer, TransferModel, BASIS_POINTS, SECONDS_PER_DAY,
};

verus! {

/// The rewards of one user, in the order in which they were assigned.
struct UserRewards {
    user: Address,
    rewards: Vec<Reward>,
}

/// The mark that the reward of `user` at `reward_index` was paid out.
struct ClaimMarker {
    user: Address,
    reward_index: u32,
}

/// The records that exist once the ledger is initialised.
struct Instance {
    admin: Address,
    pool: RewardPool,
    user_rewards: Vec<UserRewards>,
}

/// The ledger of one reward pool.
pub struct RewardDistributionContract {
    instance: Option<Instance>,
    claimed: Vec<ClaimMarker>,
}

/// Whether one of `entries` belongs to `user`.
spec fn has_user(entries: Seq<UserRewards>, user: Seq<char>) -> bool {
    exists|i: int| 0 <= i < entries.len() && #[trigger] entries[i].user@ == user
}

/// Whether each user has at most one of `entries`.
spec fn distinct_users(entries: Seq<UserRewards>) -> bool {
    forall|i: int, j: int|
        0 <= i < entries.len() && 0 <= j < entries.len() && #[trigger] entries[i].user@ == #[trigger] entries[j].user@
            ==> i == j
}

/// The entries as a map from each user to that user's rewards.
spec fn rewards_map(entries: Seq<UserRewards>) -> Map<Seq<char>, Seq<RewardModel>> {
    Map::new(
        |user: Seq<char>| has_user(entries, user),
        |user: Seq<char>|
            reward_models(
                entries[choose|i: int| 0 <= i < entries.len() && #[trigger] entries[i].user@ == user].rewards@,
            ),
    )
}

/// The markers as a set of pairs of user and index.
spec fn marker_set(markers: Seq<ClaimMarker>) -> Set<(Seq<char>, int)> {
    Set::new(
        |pair: (Seq<char>, int)|
            exists|i: int|
                0 <= i < markers.len() && #[trigger] markers[i].user@ == pair.0 && markers[i].reward_index
                    == pair.1,
    )
}

impl View for Instance {
    type V = InstanceState;

    closed spec fn view(&self) -> InstanceState {
        InstanceState { admin: self.admin@, pool: self.pool@, rewards: rewards_map(self.user_rewards@) }
    }
}

impl View for RewardDistributionContract {
    type V = ContractState;

    closed spec fn view(&self) -> ContractState {
        ContractState {
            instance: match self.instance {
                Some(instance) => Some(instance@),
                None => None,
            },
            claimed: marker_set(self.claimed@),
        }
    }
}

/// With distinct users, the map holds at each entry's user that entry's
/// rewards.
proof fn lemma_rewards_map_at(entries: Seq<UserRewards>, i: int)
    requires
        distinct_users(entries),
        0 <= i < entries.len(),
    ensures
        rewards_map(entries).contains_key(entries[i].user@),
        rewards_map(entries)[entries[i].user@] == reward_models(entries[i].rewards@),
{
    let user = entries[i].user@;
    let j = choose|j: int| 0 <= j < entries.len() && #[trigger] entries[j].user@ == user;
    assert(j == i);
}

/// Replacing the rewards of the entry at `i` replaces that user's rewards
/// in the map and changes nothing else.
proof fn lemma_rewards_map_update(before: Seq<UserRewards>, after: Seq<UserRewards>, i: int)
    requires
        distinct_users(before),
        0 <= i < before.len(),
        after.len() == before.len(),
        forall|k: int| 0 <= k < before.len() && k != i ==> after[k] == before[k],
        after[i].user@ == before[i].user@,
    ensures
        distinct_users(after),
        rewards_map(after) == rewards_map(before).insert(before[i].user@, reward_models(after[i].rewards@)),
{
    assert forall|k: int| 0 <= k < before.len() implies #[trigger] after[k].user@ == before[k].user@ by {}
    assert(distinct_users(after));
    let target = rewards_map(before).insert(before[i].user@, reward_models(after[i].rewards@));
    assert forall|user: Seq<char>| has_user(before, user) == has_user(after, user) by {
        if has_user(before, user) {
            let k = choose|k: int| 0 <= k < before.len() && #[trigger] before[k].user@ == user;
            assert(after[k].user@ == user);
        }
        if has_user(after, user) {
            let k = choose|k: int| 0 <= k < after.len() && #[trigger] after[k].user@ == user;
            assert(before[k].user@ == user);
        }
    }
    assert(has_user(before, before[i].user@));
    assert forall|user: Seq<char>| #[trigger] rewards_map(after).contains_key(user) implies rewards_map(after)[user]
        == target[user] by {
        let k = choose|k: int| 0 <= k < after.len() && #[trigger] after[k].user@ == user;
        lemma_rewards_map_at(after, k);
        lemma_rewards_map_at(before, k);
    }
    assert(rewards_map(after) =~= target);
}

/// Appending the entry of a user who had none gives that user the entry's
/// rewards in the map and changes nothing else.
proof fn lemma_rewards_map_push(before: Seq<UserRewards>, after: Seq<UserRewards>)
    requires
        distinct_users(before),
        after.len() == before.len() + 1,
        forall|k: int| 0 <= k < before.len() ==> after[k] == before[k],
        !has_user(before, after[before.len() as int].user@),
    ensures
        distinct_users(after),
        rewards_map(after) == rewards_map(before).insert(
            after[before.len() as int].user@,
            reward_models(after[before.len() as int].rewards@),
        ),
{
    let n = before.len() as int;
    let new_user = after[n].user@;
    assert forall|k: int| 0 <= k < n implies #[trigger] after[k].user@ != new_user by {
        assert(before[k].user@ == after[k].user@);
    }
    assert(distinct_users(after)) by {
        assert forall|a: int, b: int|
            0 <= a < after.len() && 0 <= b < after.len() && #[trigger] after[a].user@ == #[trigger] after[b].user@
            implies a == b by {
            if a < n && b < n {
                assert(before[a].user@ == before[b].user@);
            }
        }
    }
    let target = rewards_map(before).insert(new_user, reward_models(after[n].rewards@));
    assert forall|user: Seq<char>| has_user(after, user) == (has_user(before, user) || user == new_user) by {
        if has_user(before, user) {
            let k = choose|k: int| 0 <= k < before.len() && #[trigger] before[k].user@ == user;
            assert(after[k].user@ == user);
        }
        if has_user(after, user) && user != new_user {
            let k = choose|k: int| 0 <= k < after.len() && #[trigger] after[k].user@ == user;
            assert(before[k].user@ == user);
        }
        if user == new_user {
            assert(after[n].user@ == user);
        }
    }
    assert forall|user: Seq<char>| #[trigger] rewards_map(after).contains_key(user) implies rewards_map(after)[user]
        == target[user] by {
        let k = choose|k: int| 0 <= k < after.len() && #[trigger] after[k].user@ == user;
        lemma_rewards_map_at(after, k);
        if k < n {
            lemma_rewards_map_at(before, k);
        }
    }
    assert(rewards_map(after) =~= target);
}

/// Appending a marker adds its pair to the set and changes nothing else.
proof fn lemma_marker_set_push(before: Seq<ClaimMarker>, after: Seq<ClaimMarker>)
    requires
        after.len() == before.len() + 1,
        forall|k: int| 0 <= k < before.len() ==> after[k] == before[k],
    ensures
        marker_set(after) == marker_set(before).insert(
            (after[before.len() as int].user@, after[before.len() as int].reward_index as int),
        ),
{
    let n = before.len() as int;
    let added = (after[n].user@, after[n].reward_index as int);
    assert forall|pair: (Seq<char>, int)| marker_set(after).contains(pair) == marker_set(before).insert(
        added,
    ).contains(pair) by {
        if marker_set(before).contains(pair) {
            let k = choose|k: int|
                0 <= k < before.len() && #[trigger] before[k].user@ == pair.0 && before[k].reward_index == pair.1;
            assert(after[k].user@ == pair.0);
        }
        if pair == added {
            assert(after[n].user@ == pair.0);
        }
        if marker_set(after).contains(pair) && pair != added {
            let k = choose|k: int|
                0 <= k < after.len() && #[trigger] after[k].user@ == pair.0 && after[k].reward_index == pair.1;
            assert(before[k].user@ == pair.0);
        }
    }
    assert(marker_set(after) =~= marker_set(before).insert(added));
}

/// The index of the entry of `user`, if there is one.
fn find_user(entries: &Vec<UserRewards>, user: &Address) -> (found: Option<usize>)
    ensures
        match found {
            Some(i) => i < entries.len() && entries[i as int].user@ == user@,
            None => !has_user(entries@, user@),
        },
{
    let mut i: usize = 0;
    while i < entries.len()
        invariant
            i <= entries.len(),
            forall|k: int| 0 <= k < i ==> entries[k].user@ != user@,
        decreases entries.len() - i,
    {
        if entries[i].user.same(user) {
            return Some(i);
        }
        i = i + 1;
    }
    None
}

/// Whether one of `markers` is that of `user` and `reward_index`.
fn has_marker(markers: &Vec<ClaimMarker>, user: &Address, reward_index: u32) -> (found: bool)
    ensures
        found == marker_set(markers@).contains((user@, reward_index as int)),
{
    let mut i: usize = 0;
    while i < markers.len()
        invariant
            i <= markers.len(),
            forall|k: int| 0 <= k < i ==> !(markers[k].user@ == user@ && markers[k].reward_index == reward_index),
        decreases markers.len() - i,
    {
        if markers[i].reward_index == reward_index && markers[i].user.same(user) {
            return true;
        }
        i = i + 1;
    }
    false
}

/// A copy of `rewards`, reward by reward.
fn copy_rewards(rewards: &Vec<Reward>) -> (copy: Vec<Reward>)
    ensures
        reward_models(copy@) == reward_models(rewards@),
{
    let mut copy: Vec<Reward> = Vec::new();
    let mut i: usize = 0;
    while i < rewards.len()
        invariant
            i <= rewards.len(),
            copy.len() == i,
            forall|k: int| 0 <= k < i ==> copy[k]@ == rewards[k]@,
        decreases rewards.len() - i,
    {
        copy.push(rewards[i].clone());
        i = i + 1;
    }
    assert(reward_models(copy@) =~= reward_models(rewards@));
    copy
}

/// Whether a reward can still be claimed at ledger time `now`: up to and
/// at its last moment of validity.
pub fn check_reward_validity(reward: &Reward, now: u64) -> (valid: bool)
    ensures
        valid == (now <= reward.valid_until),
{
    now <= reward.valid_until
}

impl Instance {
    /// The test that every administrative operation starts with.
    fn admin_gate(&self, caller: &Address, authorized: bool) -> (gate: Result<(), ContractError>)
        ensures
            gate == self@.admin_gate(caller@, authorized),
    {
        if !self.admin.same(caller) {
            Err(ContractError::Unauthorized)
        } else if !authorized {
            Err(ContractError::Unauthorized)
        } else {
            Ok(())
        }
    }
}

impl RewardDistributionContract {
    /// Whether the records are consistent: no user has two entries.
    pub closed spec fn wf(&self) -> bool {
        match self.instance {
            Some(instance) => distinct_users(instance.user_rewards@),
            None => true,
        }
    }

    /// A ledger that was never initialised.
    pub fn new() -> (contract: RewardDistributionContract)
        ensures
            contract.wf(),
            contract@ == ContractState::blank(),
    {
        let contract = RewardDistributionContract { instance: None, claimed: Vec::new() };
        assert(contract@.claimed =~= Set::empty());
        contract
    }

    /// Sets the administrator and opens the pool in `token` with
    /// `initial_amount` in it, nothing distributed, active, and no rewards.
    /// Only the first call takes effect: whoever makes it names the
    /// administrator.
    pub fn initialize(
        &mut self,
        admin: Address,
        token: Address,
        initial_amount: i128,
    ) -> (outcome: Result<(), ContractError>)
        requires
            old(self).wf(),
        ensures
            final(self).wf(),
            carried_out(
                outcome,
                old(self)@.initialize(admin@, token@, initial_amount as int),
                old(self)@,
                final(self)@,
            ),
    {
        if self.instance.is_some() {
            return Err(ContractError::AlreadyInitialized);
        }
        let pool = RewardPool { token, total_amount: initial_amount, distributed: 0, active: true };
        self.instance = Some(Instance { admin, pool, user_rewards: Vec::new() });
        proof {
            assert(rewards_map(Seq::<UserRewards>::empty()) =~= Map::empty());
        }
        Ok(())
    }

    /// Whether `deposit_to_pool` may be called with these arguments:
    /// whether the pool's new total can be held in its accounts.
    pub fn deposit_in_range(
        &self,
        from: &Address,
        amount: i128,
        authorized: bool,
        transferred: bool,
    ) -> (in_range: bool)
        ensures
            in_range == self@.deposit_in_range(from@, amount as int, authorized, transferred),
    {
        match &self.instance {
            None => true,
            Some(instance) => !transferred || instance.admin_gate(from, authorized).is_err()
                || instance.pool.total_amount.checked_add(amount).is_some(),
        }
    }

    /// The transfer into the pool that a deposit of `amount` by `from`
    /// needs. The checks are made in this order: the ledger is
    /// initialised, `from` is the administrator, `from` has authorised
    /// the call.
    pub fn deposit_request(
        &self,
        from: &Address,
        amount: i128,
        authorized: bool,
    ) -> (request: Result<Transfer, ContractError>)
        ensures
            requested(request, self@.deposit_request(from@, amount as int, authorized)),
    {
        match &self.instance {
            None => Err(ContractError::NotFound),
            Some(instance) => match instance.admin_gate(from, authorized) {
                Err(e) => Err(e),
                Ok(_) => Ok(
                    Transfer {
                        token: instance.pool.token.clone(),
                        direction: Direction::IntoPool,
                        party: from.clone(),
                        amount,
                    },
                ),
            },
        }
    }

    /// Books a deposit of `amount` by `from`: the amount is added to the
    /// pool's total. `transferred` says whether the transfer that
    /// `deposit_request` names went through. The deposit is refused as
    /// `deposit_request` refuses it, and with `TransferFailed` if the
    /// transfer did not go through; a refused deposit changes nothing.
    pub fn deposit_to_pool(
        &mut self,
        from: &Address,
        amount: i128,
        authorized: bool,
        transferred: bool,
    ) -> (outcome: Result<(), ContractError>)
        requires
            old(self).wf(),
            old(self)@.deposit_in_range(from@, amount as int, authorized, transferred),
        ensures
            final(self).wf(),
            carried_out(
                outcome,
                old(self)@.deposit_to_pool(from@, amount as int, authorized, transferred),
                old(self)@,
                final(self)@,
            ),
    {
        match &mut self.instance {
            None => Err(ContractError::NotFound),
            Some(instance) => {
                match instance.admin_gate(from, authorized) {
                    Err(e) => {
                        return Err(e);
                    },
                    Ok(_) => {},
                }
                if !transferred {
                    return Err(ContractError::TransferFailed);
                }
                instance.pool.total_amount = instance.pool.total_amount + amount;
                Ok(())
            },
        }
    }

    /// Whether `assign_reward` may be called with these arguments: whether
    /// the expiry of the reward can be held in it.
    pub fn assign_in_range(
        &self,
        admin: &Address,
        valid_days: u64,
        authorized: bool,
        now: u64,
    ) -> (in_range: bool)
        ensures
            in_range == self@.assign_in_range(admin@, valid_days as int, authorized, now as int),
    {
        match &self.instance {
            None => true,
            Some(instance) => {
                if !instance.pool.active || instance.admin_gate(admin, authorized).is_err() {
                    true
                } else {
                    match valid_days.checked_mul(SECONDS_PER_DAY) {
                        Some(seconds) => now.checked_add(seconds).is_some(),
                        None => false,
                    }
                }
            },
        }
    }

    /// Assigns `to` a new reward in the pool's token, valid for
    /// `valid_days` days from the ledger time `now`. The reward goes to
    /// the end of the rewards of `to`; no other reward changes place. The
    /// checks are made in this order: the ledger is initialised, the pool
    /// is active, `admin` is the administrator, `admin` has authorised the
    /// call. So an inactive pool refuses every caller as `PoolInactive`.
    pub fn assign_reward(
        &mut self,
        admin: &Address,
        to: &Address,
        reward_type: RewardType,
        amount: i128,
        valid_days: u64,
        authorized: bool,
        now: u64,
    ) -> (outcome: Result<(), ContractError>)
        requires
            old(self).wf(),
            old(self)@.assign_in_range(admin@, valid_days as int, authorized, now as int),
        ensures
            final(self).wf(),
            carried_out(
                outcome,
                old(self)@.assign_reward(
                    admin@,
                    to@,
                    reward_type,
                    amount as int,
                    valid_days as int,
                    authorized,
                    now as int,
                ),
                old(self)@,
                final(self)@,
            ),
    {
        match &mut self.instance {
            None => Err(ContractError::NotFound),
            Some(instance) => {
                if !instance.pool.active {
                    return Err(ContractError::PoolInactive);
                }
                match instance.admin_gate(admin, authorized) {
                    Err(e) => {
                        return Err(e);
                    },
                    Ok(_) => {},
                }
                let valid_until = now + valid_days * SECONDS_PER_DAY;
                let reward = Reward { token: instance.pool.token.clone(), reward_type, amount, valid_until };
                let ghost before = instance.user_rewards@;
                match find_user(&instance.user_rewards, to) {
                    Some(i) => {
                        instance.user_rewards[i].rewards.push(reward);
                        proof {
                            lemma_rewards_map_at(before, i as int);
                            lemma_rewards_map_update(before, instance.user_rewards@, i as int);
                            assert(reward_models(instance.user_rewards@[i as int].rewards@) =~= reward_models(
                                before[i as int].rewards@,
                            ).push(reward@));
                        }
                    },
                    None => {
                        let mut rewards: Vec<Reward> = Vec::new();
                        rewards.push(reward);
                        instance.user_rewards.push(UserRewards { user: to.clone(), rewards });
                        proof {
                            lemma_rewards_map_push(before, instance.user_rewards@);
                            assert(reward_models(instance.user_rewards@[before.len() as int].rewards@)
                                =~= Seq::<RewardModel>::empty().push(reward@));
                        }
                    },
                }
                Ok(())
            },
        }
    }

    /// The reward that a claim is about and the pool that pays it, if the
    /// claim gets as far as working out what to pay.
    fn claimable(
        &self,
        user: &Address,
        reward_index: u32,
        authorized: bool,
        now: u64,
    ) -> (found: Result<(&Reward, &RewardPool), ContractError>)
        requires
            self.wf(),
        ensures
            match found {
                Ok((reward, pool)) => {
                    &&& self@.claimable(user@, reward_index as int, authorized, now as int) == Ok::<
                        RewardModel,
                        ContractError,
                    >(reward@)
                    &&& self@.pool_info() == Ok::<PoolModel, ContractError>(pool@)
                },
                Err(e) => self@.claimable(user@, reward_index as int, authorized, now as int) == Err::<
                    RewardModel,
                    ContractError,
                >(e),
            },
    {
        if !authorized {
            return Err(ContractError::Unauthorized);
        }
        if has_marker(&self.claimed, user, reward_index) {
            return Err(ContractError::AlreadyClaimed);
        }
        match &self.instance {
            None => Err(ContractError::NotFound),
            Some(instance) => {
                match find_user(&instance.user_rewards, user) {
                    None => Err(ContractError::NoRewardsAssigned),
                    Some(i) => {
                        proof {
                            lemma_rewards_map_at(instance.user_rewards@, i as int);
                        }
                        let rewards = &instance.user_rewards[i].rewards;
                        if reward_index as usize >= rewards.len() {
                            return Err(ContractError::IndexOutOfBounds);
                        }
                        let reward = &rewards[reward_index as usize];
                        if !check_reward_validity(reward, now) {
                            return Err(ContractError::RewardExpired);
                        }
                        Ok((reward, &instance.pool))
                    },
                }
            },
        }
    }

    /// Whether `claim_request` and `claim_reward` may be called with these
    /// arguments: whether the sums that the claim works out can be held in
    /// the pool's accounts.
    pub fn claim_in_range(
        &self,
        user: &Address,
        reward_index: u32,
        authorized: bool,
        now: u64,
        transferred: bool,
    ) -> (in_range: bool)
        requires
            self.wf(),
        ensures
            in_range == self@.claim_in_range(user@, reward_index as int, authorized, now as int, transferred),
    {
        match self.claimable(user, reward_index, authorized, now) {
            Err(_) => true,
            Ok((reward, pool)) => {
                let amount = match reward.reward_type {
                    RewardType::Fixed => Some(reward.amount),
                    RewardType::Percentage => match pool.total_amount.checked_mul(reward.amount) {
                        Some(product) => Some(product / BASIS_POINTS),
                        None => None,
                    },
                };
                match (amount, pool.total_amount.checked_sub(pool.distributed)) {
                    (Some(amount), Some(available)) => !transferred || available < amount
                        || pool.distributed.checked_add(amount).is_some(),
                    _ => false,
                }
            },
        }
    }

    /// The transfer out of the pool that a claim of the reward of `user`
    /// at `reward_index` needs, at ledger time `now`. The checks are made
    /// in this order: the user has authorised the call, the reward was not
    /// paid out before, the ledger is initialised, the user has rewards,
    /// the index is one of them, the reward is still valid, the pool has
    /// enough left.
    pub fn claim_request(
        &self,
        user: &Address,
        reward_index: u32,
        authorized: bool,
        now: u64,
    ) -> (request: Result<Transfer, ContractError>)
        requires
            self.wf(),
            self@.claim_in_range(user@, reward_index as int, authorized, now as int, false),
        ensures
            requested(request, self@.claim_request(user@, reward_index as int, authorized, now as int)),
    {
        match self.claimable(user, reward_index, authorized, now) {
            Err(e) => Err(e),
            Ok((reward, pool)) => {
                let amount = match reward.reward_type {
                    RewardType::Fixed => reward.amount,
                    RewardType::Percentage => (pool.total_amount * reward.amount) / BASIS_POINTS,
                };
                if pool.total_amount - pool.distributed < amount {
                    return Err(ContractError::InsufficientFunds);
                }
                Ok(
                    Transfer {
                        token: pool.token.clone(),
                        direction: Direction::OutOfPool,
                        party: user.clone(),
                        amount,
                    },
                )
            },
        }
    }

    /// Books the claim of the reward of `user` at `reward_index`, at
    /// ledger time `now`: what the reward pays is added to what the pool
    /// has distributed, and the reward is marked as paid. `transferred`
    /// says whether the transfer that `claim_request` names went through.
    /// The claim is refused as `claim_request` refuses it, and with
    /// `TransferFailed` if the transfer did not go through; a refused
    /// claim changes nothing.
    pub fn claim_reward(
        &mut self,
        user: &Address,
        reward_index: u32,
        authorized: bool,
        now: u64,
        transferred: bool,
    ) -> (outcome: Result<(), ContractError>)
        requires
            old(self).wf(),
            old(self)@.claim_in_range(user@, reward_index as int, authorized, now as int, transferred),
        ensures
            final(self).wf(),
            carried_out(
                outcome,
                old(self)@.claim_reward(
                    user@,
                    reward_index as int,
                    authorized,
                    now as int,
                    transferred,
                ),
                old(self)@,
                final(self)@,
            ),
    {
        match self.claim_request(user, reward_index, authorized, now) {
            Err(e) => Err(e),
            Ok(transfer) => {
                if !transferred {
                    return Err(ContractError::TransferFailed);
                }
                match &mut self.instance {
                    Some(instance) => {
                        instance.pool.distributed = instance.pool.distributed + transfer.amount;
                    },
                    None => {},
                }
                self.claimed.push(ClaimMarker { user: user.clone(), reward_index });
                proof {
                    lemma_marker_set_push(old(self).claimed@, self.claimed@);
                }
                Ok(())
            },
        }
    }

    /// Opens the pool for new assignments or closes it. Rewards that were
    /// assigned before can be claimed either way. The checks are made in
    /// this order: the ledger is initialised, `admin` is the
    /// administrator, `admin` has authorised the call.
    pub fn set_pool_status(
        &mut self,
        admin: &Address,
        active: bool,
        authorized: bool,
    ) -> (outcome: Result<(), ContractError>)
        requires
            old(self).wf(),
        ensures
            final(self).wf(),
            carried_out(
                outcome,
                old(self)@.set_pool_status(admin@, active, authorized),
                old(self)@,
                final(self)@,
            ),
    {
        match &mut self.instance {
            None => Err(ContractError::NotFound),
            Some(instance) => {
                match instance.admin_gate(admin, authorized) {
                    Err(e) => {
                        return Err(e);
                    },
                    Ok(_) => {},
                }
                instance.pool.active = active;
                Ok(())
            },
        }
    }

    /// The rewards of `user` in the order in which they were assigned;
    /// empty if the user has none or the ledger was never initialised.
    pub fn get_user_rewards(&self, user: &Address) -> (rewards: Vec<Reward>)
        requires
            self.wf(),
        ensures
            reward_models(rewards@) == self@.user_rewards(user@),
            rewards@.len() == self@.user_rewards(user@).len(),
            forall|i: int| 0 <= i < rewards@.len() ==> (#[trigger] rewards@[i])@ == self@.user_rewards(user@)[i],
    {
        match &self.instance {
            None => {
                let rewards: Vec<Reward> = Vec::new();
                assert(reward_models(rewards@) =~= Seq::<RewardModel>::empty());
                rewards
            },
            Some(instance) => match find_user(&instance.user_rewards, user) {
                None => {
                    let rewards: Vec<Reward> = Vec::new();
                    assert(reward_models(rewards@) =~= Seq::<RewardModel>::empty());
                    rewards
                },
                Some(i) => {
                    proof {
                        lemma_rewards_map_at(instance.user_rewards@, i as int);
                    }
                    copy_rewards(&instance.user_rewards[i].rewards)
                },
            },
        }
    }

    /// The pool's accounts as they stand; `NotFound` before initialisation.
    pub fn get_pool_info(&self) -> (info: Result<RewardPool, ContractError>)
        ensures
            match info {
                Ok(pool) => self@.pool_info() == Ok::<PoolModel, ContractError>(pool@),
                Err(e) => self@.pool_info() == Err::<PoolModel, ContractError>(e),
            },
    {
        match &self.instance {
            None => Err(ContractError::NotFound),
            Some(instance) => Ok(instance.pool.clone()),
        }
    }

    /// The administrator; `None` before initialisation.
    pub fn admin(&self) -> (admin: Option<Address>)
        ensures
            match admin {
                Some(address) => self@.admin() == Some(address@),
                None => self@.admin() is None,
            },
    {
        match &self.instance {
            None => None,
            Some(instance) => Some(instance.admin.clone()),
        }
    }

    /// Whether `caller` is the administrator; nobody is before
    /// initialisation.
    pub fn is_admin(&self, caller: &Address) -> (admin: bool)
        ensures
            admin == self@.is_admin(caller@),
    {
        match &self.instance {
            None => false,
            Some(instance) => instance.admin.same(caller),
        }
    }

    /// Whether the reward of `user` at `reward_index` was paid out.
    pub fn is_reward_claimed(&self, user: &Address, reward_index: u32) -> (claimed: bool)
        ensures
            claimed == self@.is_claimed(user@, reward_index as int),
    {
        has_marker(&self.claimed, user, reward_index)
    }

    /// Whether the state holds a record of the given kind.
    pub fn has(&self, key: DataKey) -> (held: bool)
        ensures
            held == self@.has(key),
    {
        match key {
            DataKey::Admin => self.instance.is_some(),
            DataKey::RewardPool => self.instance.is_some(),
            DataKey::UserRewards => self.instance.is_some(),
            DataKey::RewardClaimed => {
                proof {
                    if self.claimed.len() > 0 {
                        let first = (self.claimed@[0].user@, self.claimed@[0].reward_index as int);
                        assert(self.claimed@[0].user@ == first.0);
                        assert(self@.claimed.contains(first));
                    } else {
                        assert forall|pair: (Seq<char>, int)| !self@.claimed.contains(pair) by {}
                    }
                }
                self.claimed.len() > 0
            },
        }
    }

    /// An initialised ledger with the given administrator and pool, no
    /// rewards and no marks: the start of rebuilding a ledger from its
    /// stored records.
    pub fn restore(admin: Address, pool: RewardPool) -> (contract: RewardDistributionContract)
        ensures
            contract.wf(),
            contract@ == ContractState::restored(admin@, pool@),
    {
        let contract = RewardDistributionContract {
            instance: Some(Instance { admin, pool, user_rewards: Vec::new() }),
            claimed: Vec::new(),
        };
        proof {
            assert(rewards_map(Seq::<UserRewards>::empty()) =~= Map::empty());
            assert(contract@.claimed =~= Set::empty());
        }
        contract
    }

    /// Writes the stored rewards of `user` into the ledger, in place of
    /// any that it holds for that user; `NotFound` before initialisation.
    /// This is for rebuilding a ledger from its stored records: it makes
    /// none of the checks of an assignment.
    pub fn restore_rewards(
        &mut self,
        user: Address,
        rewards: Vec<Reward>,
    ) -> (outcome: Result<(), ContractError>)
        requires
            old(self).wf(),
        ensures
            final(self).wf(),
            carried_out(
                outcome,
                old(self)@.with_rewards(user@, reward_models(rewards@)),
                old(self)@,
                final(self)@,
            ),
    {
        match &mut self.instance {
            None => Err(ContractError::NotFound),
            Some(instance) => {
                let ghost before = instance.user_rewards@;
                match find_user(&instance.user_rewards, &user) {
                    Some(i) => {
                        instance.user_rewards[i].rewards = rewards;
                        proof {
                            lemma_rewards_map_update(before, instance.user_rewards@, i as int);
                        }
                    },
                    None => {
                        instance.user_rewards.push(UserRewards { user, rewards });
                        proof {
                            lemma_rewards_map_push(before, instance.user_rewards@);
                        }
                    },
                }
                Ok(())
            },
        }
    }

    /// Marks the reward of `user` at `reward_index` as paid out, as a
    /// stored mark says. This is for rebuilding a ledger from its stored
    /// records: it makes none of the checks of a claim.
    pub fn restore_claim(&mut self, user: Address, reward_index: u32)
        requires
            old(self).wf(),
        ensures
            final(self).wf(),
            final(self)@ == old(self)@.with_claim(user@, reward_index as int),
    {
        self.claimed.push(ClaimMarker { user, reward_index });
        proof {
            lemma_marker_set_push(old(self).claimed@, self.claimed@);
        }
    }
}

} // verus!
