use reward_distribution::{
    Address, ContractError, Direction, RewardDistributionContract, RewardType, Transfer,
};

const T0: u64 = 1_700_000_000;

fn address(key: &str) -> Address {
    Address::new(key.to_string())
}

fn opened(total: i128) -> RewardDistributionContract {
    let mut contract = RewardDistributionContract::new();
    assert_eq!(contract.initialize(address("admin"), address("token-x"), total), Ok(()));
    contract
}

#[test]
fn test_reward_distribution() {
    let admin = address("admin");
    let user = address("user");
    let token = address("token-x");

    let mut contract = RewardDistributionContract::new();
    assert_eq!(contract.initialize(admin.clone(), token.clone(), 10000), Ok(()));

    assert_eq!(contract.assign_reward(&admin, &user, RewardType::Fixed, 100, 30, true, T0), Ok(()));

    let rewards = contract.get_user_rewards(&user);
    assert_eq!(rewards.len(), 1);
}

#[test]
fn fixed_reward_is_assigned_claimed_once_and_refused_after() {
    let admin = address("admin");
    let user = address("user");
    let token = address("token-x");

    let mut contract = RewardDistributionContract::new();
    assert_eq!(contract.initialize(admin.clone(), token.clone(), 10000), Ok(()));
    assert_eq!(contract.assign_reward(&admin, &user, RewardType::Fixed, 100, 30, true, T0), Ok(()));

    let rewards = contract.get_user_rewards(&user);
    assert_eq!(rewards.len(), 1);
    assert_eq!(rewards[0].amount, 100);
    assert_eq!(rewards[0].reward_type, RewardType::Fixed);
    assert_eq!(rewards[0].token, token);
    assert_eq!(rewards[0].valid_until, T0 + 30 * 86400);
    assert_eq!(rewards[0].valid_until, 1_702_592_000);

    assert!(contract.claim_in_range(&user, 0, true, T0 + 1, true));
    assert_eq!(
        contract.claim_request(&user, 0, true, T0 + 1),
        Ok(Transfer { token: token.clone(), direction: Direction::OutOfPool, party: user.clone(), amount: 100 })
    );
    assert_eq!(contract.claim_reward(&user, 0, true, T0 + 1, true), Ok(()));

    let pool = contract.get_pool_info().unwrap();
    assert_eq!(pool.distributed, 100);
    assert_eq!(pool.total_amount, 10000);
    assert!(contract.is_reward_claimed(&user, 0));

    assert_eq!(contract.claim_request(&user, 0, true, T0 + 1), Err(ContractError::AlreadyClaimed));
    assert_eq!(contract.claim_reward(&user, 0, true, T0 + 1, true), Err(ContractError::AlreadyClaimed));
    assert_eq!(contract.get_pool_info().unwrap().distributed, 100);
}

#[test]
fn two_halves_of_the_pool_are_both_paid() {
    let admin = address("admin");
    let user = address("user");
    let mut contract = opened(10000);

    assert_eq!(contract.assign_reward(&admin, &user, RewardType::Percentage, 5000, 1, true, T0), Ok(()));
    assert_eq!(contract.claim_request(&user, 0, true, T0).unwrap().amount, 5000);
    assert_eq!(contract.claim_reward(&user, 0, true, T0, true), Ok(()));
    assert_eq!(contract.get_pool_info().unwrap().distributed, 5000);

    assert_eq!(contract.assign_reward(&admin, &user, RewardType::Percentage, 5000, 1, true, T0), Ok(()));
    assert_eq!(contract.get_user_rewards(&user).len(), 2);
    // The share is taken of the total, not of what is left.
    assert_eq!(contract.claim_request(&user, 1, true, T0).unwrap().amount, 5000);
    assert_eq!(contract.claim_reward(&user, 1, true, T0, true), Ok(()));

    let pool = contract.get_pool_info().unwrap();
    assert_eq!(pool.distributed, 10000);
    assert_eq!(pool.total_amount, 10000);

    assert_eq!(contract.assign_reward(&admin, &user, RewardType::Fixed, 1, 1, true, T0), Ok(()));
    assert_eq!(contract.claim_reward(&user, 2, true, T0, true), Err(ContractError::InsufficientFunds));
}

#[test]
fn percentage_payout_rounds_down() {
    let admin = address("admin");
    let user = address("user");

    let mut even = opened(10000);
    assert_eq!(even.assign_reward(&admin, &user, RewardType::Percentage, 1000, 1, true, T0), Ok(()));
    assert_eq!(even.claim_request(&user, 0, true, T0).unwrap().amount, 1000);

    let mut odd = opened(9999);
    assert_eq!(odd.assign_reward(&admin, &user, RewardType::Percentage, 1000, 1, true, T0), Ok(()));
    assert_eq!(odd.claim_request(&user, 0, true, T0).unwrap().amount, 999);
    assert_eq!(odd.claim_reward(&user, 0, true, T0, true), Ok(()));
    assert_eq!(odd.get_pool_info().unwrap().distributed, 999);

    let mut small = opened(3);
    assert_eq!(small.assign_reward(&admin, &user, RewardType::Percentage, 3333, 1, true, T0), Ok(()));
    assert_eq!(small.claim_request(&user, 0, true, T0).unwrap().amount, 0);
}

#[test]
fn percentage_payout_of_a_negative_product_rounds_toward_zero() {
    let mut contract = RewardDistributionContract::restore(
        address("admin"),
        reward_distribution::RewardPool {
            token: address("token-x"),
            total_amount: 19999,
            distributed: 0,
            active: true,
        },
    );
    let user = address("user");
    assert_eq!(
        contract.assign_reward(&address("admin"), &user, RewardType::Percentage, -1, 1, true, T0),
        Ok(())
    );
    assert_eq!(contract.claim_request(&user, 0, true, T0).unwrap().amount, -1);
}

#[test]
fn claim_is_valid_up_to_and_at_expiry() {
    let admin = address("admin");
    let user = address("user");
    let mut contract = opened(10000);
    assert_eq!(contract.assign_reward(&admin, &user, RewardType::Fixed, 10, 2, true, T0), Ok(()));
    let last = T0 + 2 * 86400;
    assert_eq!(contract.get_user_rewards(&user)[0].valid_until, last);

    assert_eq!(contract.claim_request(&user, 0, true, last + 1), Err(ContractError::RewardExpired));
    assert_eq!(contract.claim_reward(&user, 0, true, last + 1, true), Err(ContractError::RewardExpired));
    assert_eq!(contract.claim_reward(&user, 0, true, u64::MAX, true), Err(ContractError::RewardExpired));
    assert!(!contract.is_reward_claimed(&user, 0));

    assert_eq!(contract.claim_reward(&user, 0, true, last, true), Ok(()));
    assert_eq!(contract.get_pool_info().unwrap().distributed, 10);
}

#[test]
fn reward_valid_for_no_days_is_claimed_in_the_same_moment_only() {
    let admin = address("admin");
    let user = address("user");
    let mut contract = opened(10);
    assert_eq!(contract.assign_reward(&admin, &user, RewardType::Fixed, 10, 0, true, T0), Ok(()));
    assert_eq!(contract.claim_request(&user, 0, true, T0 + 1), Err(ContractError::RewardExpired));
    assert_eq!(contract.claim_reward(&user, 0, true, T0, true), Ok(()));
}

#[test]
fn inactive_pool_takes_no_assignment_but_pays_claims() {
    let admin = address("admin");
    let user = address("user");
    let mut contract = opened(10000);
    assert_eq!(contract.assign_reward(&admin, &user, RewardType::Fixed, 7, 1, true, T0), Ok(()));

    assert_eq!(contract.set_pool_status(&admin, false, true), Ok(()));
    assert!(!contract.get_pool_info().unwrap().active);

    // Whoever asks, and authorised or not, it is the inactive pool that is reported.
    assert_eq!(
        contract.assign_reward(&admin, &user, RewardType::Fixed, 7, 1, true, T0),
        Err(ContractError::PoolInactive)
    );
    assert_eq!(
        contract.assign_reward(&user, &user, RewardType::Fixed, 7, 1, true, T0),
        Err(ContractError::PoolInactive)
    );
    assert_eq!(
        contract.assign_reward(&admin, &user, RewardType::Fixed, 7, 1, false, T0),
        Err(ContractError::PoolInactive)
    );
    assert_eq!(
        contract.assign_reward(&user, &user, RewardType::Fixed, 7, 1, false, T0),
        Err(ContractError::PoolInactive)
    );
    assert!(contract.assign_in_range(&admin, u64::MAX, true, T0));
    assert_eq!(contract.get_user_rewards(&user).len(), 1);

    assert_eq!(contract.claim_reward(&user, 0, true, T0, true), Ok(()));

    assert_eq!(contract.set_pool_status(&admin, true, true), Ok(()));
    assert!(contract.get_pool_info().unwrap().active);
    // The active pool looks at the caller.
    assert_eq!(
        contract.assign_reward(&user, &user, RewardType::Fixed, 7, 1, true, T0),
        Err(ContractError::Unauthorized)
    );
    assert_eq!(
        contract.assign_reward(&admin, &user, RewardType::Fixed, 7, 1, false, T0),
        Err(ContractError::Unauthorized)
    );
    assert_eq!(contract.assign_reward(&admin, &user, RewardType::Fixed, 7, 1, true, T0), Ok(()));
    assert_eq!(contract.get_user_rewards(&user).len(), 2);
}

#[test]
fn second_initialize_is_refused_whatever_it_brings() {
    let mut contract = opened(10000);
    assert_eq!(
        contract.initialize(address("admin"), address("token-x"), 10000),
        Err(ContractError::AlreadyInitialized)
    );
    assert_eq!(
        contract.initialize(address("other"), address("token-y"), -5),
        Err(ContractError::AlreadyInitialized)
    );
    assert_eq!(contract.admin(), Some(address("admin")));
    let pool = contract.get_pool_info().unwrap();
    assert_eq!(pool.token, address("token-x"));
    assert_eq!(pool.total_amount, 10000);
    assert_eq!(pool.distributed, 0);
    assert!(pool.active);
}

#[test]
fn first_caller_becomes_administrator() {
    let mut contract = RewardDistributionContract::new();
    assert_eq!(contract.admin(), None);
    assert!(!contract.is_admin(&address("anyone")));
    assert_eq!(contract.initialize(address("anyone"), address("token-x"), 0), Ok(()));
    assert!(contract.is_admin(&address("anyone")));
    assert!(!contract.is_admin(&address("admin")));
}

#[test]
fn refused_operations_with_negative_amounts_leave_the_accounts_in_order() {
    let admin = address("admin");
    let user = address("user");
    let mut contract = opened(100);
    assert_eq!(contract.assign_reward(&admin, &user, RewardType::Fixed, 60, 1, true, T0), Ok(()));
    assert_eq!(contract.claim_reward(&user, 0, true, T0, true), Ok(()));

    assert_eq!(contract.deposit_to_pool(&user, -90, true, true), Err(ContractError::Unauthorized));
    assert_eq!(contract.deposit_to_pool(&admin, -90, true, false), Err(ContractError::TransferFailed));
    assert_eq!(
        contract.assign_reward(&user, &user, RewardType::Fixed, -5, 1, true, T0),
        Err(ContractError::Unauthorized)
    );
    assert_eq!(contract.initialize(admin.clone(), address("token-x"), -1), Err(ContractError::AlreadyInitialized));

    let pool = contract.get_pool_info().unwrap();
    assert_eq!(pool.distributed, 60);
    assert_eq!(pool.total_amount, 100);
    assert_eq!(contract.get_user_rewards(&user).len(), 1);
}

#[test]
fn distributed_grows_and_stays_within_the_total() {
    let admin = address("admin");
    let users = [address("u1"), address("u2"), address("u3")];
    let mut contract = opened(1000);
    let mut last = 0;
    for round in 0..4u32 {
        for user in users.iter() {
            assert_eq!(contract.assign_reward(&admin, user, RewardType::Percentage, 1500, 1, true, T0), Ok(()));
            assert_eq!(contract.assign_reward(&admin, user, RewardType::Fixed, 40, 1, true, T0), Ok(()));
        }
        for user in users.iter() {
            for index in [2 * round, 2 * round + 1] {
                let _ = contract.claim_reward(user, index, true, T0, true);
                let pool = contract.get_pool_info().unwrap();
                assert!(pool.distributed >= last);
                assert!(pool.distributed <= pool.total_amount);
                last = pool.distributed;
            }
        }
    }
    // Five shares of 150 and five times 40 fit into 1000; the sixth share does not.
    assert_eq!(last, 990);
    assert_eq!(contract.deposit_to_pool(&admin, 10, true, true), Ok(()));
    let pool = contract.get_pool_info().unwrap();
    assert_eq!(pool.total_amount, 1010);
    assert_eq!(pool.distributed, 990);
}
