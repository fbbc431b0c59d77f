use soroban_sdk::testutils::{Address as _, ContractFunctionSet, EnvTestConfig};
use soroban_sdk::{Address, Env, Val};
use stellarcade::achievement_badge::{AchievementBadge, Error};

/// A contract without entry points: the operations run in its frame and on
/// its storage.
struct Frame;

impl ContractFunctionSet for Frame {
    fn call(&self, _func: &str, _env: Env, _args: &[Val]) -> Option<Val> {
        None
    }
}

struct Client {
    env: Env,
    contract: Address,
}

impl Client {
    fn new(env: &Env) -> Client {
        Client { env: env.clone(), contract: env.register(Frame, ()) }
    }

    fn try_init(&self, admin: &Address, reward_contract: &Address) -> Result<(), Error> {
        let mut env = self.env.clone();
        self.env.as_contract(&self.contract, || AchievementBadge::init(&mut env, admin, reward_contract))
    }

    fn try_define_badge(
        &self,
        admin: &Address,
        badge_id: u64,
        criteria_hash: [u8; 32],
        reward: i128,
    ) -> Result<(), Error> {
        let mut env = self.env.clone();
        self.env.as_contract(&self.contract, || {
            AchievementBadge::define_badge(&mut env, admin, badge_id, criteria_hash, reward)
        })
    }

    fn try_evaluate_user(&self, admin: &Address, user: &Address, badge_id: u64) -> Result<(), Error> {
        let mut env = self.env.clone();
        self.env.as_contract(&self.contract, || {
            AchievementBadge::evaluate_user(&mut env, admin, user, badge_id)
        })
    }

    fn try_award_badge(&self, admin: &Address, user: &Address, badge_id: u64) -> Result<(), Error> {
        let mut env = self.env.clone();
        self.env.as_contract(&self.contract, || {
            AchievementBadge::award_badge(&mut env, admin, user, badge_id)
        })
    }

    fn init(&self, admin: &Address, reward_contract: &Address) {
        self.try_init(admin, reward_contract).unwrap()
    }

    fn define_badge(&self, admin: &Address, badge_id: u64, criteria_hash: [u8; 32], reward: i128) {
        self.try_define_badge(admin, badge_id, criteria_hash, reward).unwrap()
    }

    fn evaluate_user(&self, admin: &Address, user: &Address, badge_id: u64) {
        self.try_evaluate_user(admin, user, badge_id).unwrap()
    }

    fn award_badge(&self, admin: &Address, user: &Address, badge_id: u64) {
        self.try_award_badge(admin, user, badge_id).unwrap()
    }

    fn badges_of(&self, user: &Address) -> Vec<u64> {
        self.env.as_contract(&self.contract, || AchievementBadge::badges_of(&self.env, user))
    }
}

/// A host that keeps its records in memory and writes no file when it goes.
fn new_env() -> Env {
    Env::new_with_config(EnvTestConfig { capture_snapshot_at_drop: false })
}

fn make_hash(seed: u8) -> [u8; 32] {
    [seed; 32]
}

fn setup(env: &Env) -> (Client, Address, Address) {
    let admin = Address::generate(env);
    let reward_contract = Address::generate(env);
    let client = Client::new(env);
    env.mock_all_auths();
    client.init(&admin, &reward_contract);
    (client, admin, reward_contract)
}

#[test]
fn test_init_rejects_reinit() {
    let env = new_env();
    let (client, admin, reward_contract) = setup(&env);
    env.mock_all_auths();

    let result = client.try_init(&admin, &reward_contract);
    assert!(result.is_err());
    assert_eq!(result, Err(Error::AlreadyInitialized));
}

#[test]
fn test_uninit_privileged_calls_rejected() {
    let env = new_env();
    let client = Client::new(&env);
    env.mock_all_auths();

    let admin = Address::generate(&env);
    let user = Address::generate(&env);
    let hash = make_hash(1);

    assert!(client.try_define_badge(&admin, 1u64, hash, 0i128).is_err());
    assert!(client.try_evaluate_user(&admin, &user, 1u64).is_err());
    assert!(client.try_award_badge(&admin, &user, 1u64).is_err());
    assert_eq!(client.try_define_badge(&admin, 1u64, hash, 0i128), Err(Error::NotInitialized));
    assert_eq!(client.try_evaluate_user(&admin, &user, 1u64), Err(Error::NotInitialized));
    assert_eq!(client.try_award_badge(&admin, &user, 1u64), Err(Error::NotInitialized));
}

#[test]
fn test_define_badge_success() {
    let env = new_env();
    let (client, admin, _) = setup(&env);
    env.mock_all_auths();

    let hash = make_hash(42);
    client.define_badge(&admin, 1u64, hash, 500i128);
}

#[test]
fn test_define_badge_duplicate_rejected() {
    let env = new_env();
    let (client, admin, _) = setup(&env);
    env.mock_all_auths();

    let hash = make_hash(1);
    client.define_badge(&admin, 10u64, hash, 0i128);

    let result = client.try_define_badge(&admin, 10u64, hash, 0i128);
    assert!(result.is_err());
    assert_eq!(result, Err(Error::BadgeAlreadyExists));
}

#[test]
fn test_define_badge_negative_reward_rejected() {
    let env = new_env();
    let (client, admin, _) = setup(&env);
    env.mock_all_auths();

    let hash = make_hash(2);
    let result = client.try_define_badge(&admin, 1u64, hash, -1i128);
    assert!(result.is_err());
    assert_eq!(result, Err(Error::InvalidInput));
}

#[test]
fn test_define_badge_non_admin_rejected() {
    let env = new_env();
    let (client, _, _) = setup(&env);
    env.mock_all_auths();

    let non_admin = Address::generate(&env);
    let hash = make_hash(3);
    let result = client.try_define_badge(&non_admin, 1u64, hash, 0i128);
    assert!(result.is_err());
    assert_eq!(result, Err(Error::NotAuthorized));
}

#[test]
fn test_evaluate_user_success() {
    let env = new_env();
    let (client, admin, _) = setup(&env);
    env.mock_all_auths();

    let hash = make_hash(5);
    client.define_badge(&admin, 1u64, hash, 0i128);

    let user = Address::generate(&env);
    client.evaluate_user(&admin, &user, 1u64);
}

#[test]
fn test_evaluate_user_undefined_badge_rejected() {
    let env = new_env();
    let (client, admin, _) = setup(&env);
    env.mock_all_auths();

    let user = Address::generate(&env);
    let result = client.try_evaluate_user(&admin, &user, 999u64);
    assert!(result.is_err());
    assert_eq!(result, Err(Error::BadgeNotFound));
}

#[test]
fn test_evaluate_user_non_admin_rejected() {
    let env = new_env();
    let (client, admin, _) = setup(&env);
    env.mock_all_auths();

    let hash = make_hash(6);
    client.define_badge(&admin, 1u64, hash, 0i128);

    let non_admin = Address::generate(&env);
    let user = Address::generate(&env);
    let result = client.try_evaluate_user(&non_admin, &user, 1u64);
    assert!(result.is_err());
    assert_eq!(result, Err(Error::NotAuthorized));
}

#[test]
fn test_award_badge_success() {
    let env = new_env();
    let (client, admin, _) = setup(&env);
    env.mock_all_auths();

    let hash = make_hash(7);
    client.define_badge(&admin, 1u64, hash, 100i128);

    let user = Address::generate(&env);
    client.award_badge(&admin, &user, 1u64);

    let badges = client.badges_of(&user);
    assert_eq!(badges.len(), 1);
    assert_eq!(badges.get(0).copied().unwrap(), 1u64);
}

#[test]
fn test_award_badge_undefined_badge_rejected() {
    let env = new_env();
    let (client, admin, _) = setup(&env);
    env.mock_all_auths();

    let user = Address::generate(&env);
    let result = client.try_award_badge(&admin, &user, 999u64);
    assert!(result.is_err());
    assert_eq!(result, Err(Error::BadgeNotFound));
}

#[test]
fn test_award_badge_duplicate_rejected() {
    let env = new_env();
    let (client, admin, _) = setup(&env);
    env.mock_all_auths();

    let hash = make_hash(8);
    client.define_badge(&admin, 1u64, hash, 0i128);

    let user = Address::generate(&env);
    client.award_badge(&admin, &user, 1u64);

    let result = client.try_award_badge(&admin, &user, 1u64);
    assert!(result.is_err());
    assert_eq!(result, Err(Error::BadgeAlreadyAwarded));
}

#[test]
fn test_award_badge_non_admin_rejected() {
    let env = new_env();
    let (client, admin, _) = setup(&env);
    env.mock_all_auths();

    let hash = make_hash(9);
    client.define_badge(&admin, 2u64, hash, 0i128);

    let non_admin = Address::generate(&env);
    let user = Address::generate(&env);
    let result = client.try_award_badge(&non_admin, &user, 2u64);
    assert!(result.is_err());
    assert_eq!(result, Err(Error::NotAuthorized));
}

#[test]
fn test_award_multiple_badges_to_same_user() {
    let env = new_env();
    let (client, admin, _) = setup(&env);
    env.mock_all_auths();

    let user = Address::generate(&env);

    for id in 1u64..=3 {
        let hash = make_hash(id as u8);
        client.define_badge(&admin, id, hash, 0i128);
        client.award_badge(&admin, &user, id);
    }

    let badges = client.badges_of(&user);
    assert_eq!(badges.len(), 3);
    assert_eq!(badges.get(0).copied().unwrap(), 1u64);
    assert_eq!(badges.get(1).copied().unwrap(), 2u64);
    assert_eq!(badges.get(2).copied().unwrap(), 3u64);
}

#[test]
fn test_same_badge_different_users() {
    let env = new_env();
    let (client, admin, _) = setup(&env);
    env.mock_all_auths();

    let hash = make_hash(10);
    client.define_badge(&admin, 1u64, hash, 50i128);

    let user_a = Address::generate(&env);
    let user_b = Address::generate(&env);

    client.award_badge(&admin, &user_a, 1u64);
    client.award_badge(&admin, &user_b, 1u64);

    assert_eq!(client.badges_of(&user_a).len(), 1);
    assert_eq!(client.badges_of(&user_b).len(), 1);
}

#[test]
fn test_badges_of_returns_empty_for_new_user() {
    let env = new_env();
    let (client, _, _) = setup(&env);

    let user = Address::generate(&env);
    let badges = client.badges_of(&user);
    assert_eq!(badges.len(), 0);
}

#[test]
fn test_full_lifecycle() {
    let env = new_env();
    let (client, admin, _) = setup(&env);
    env.mock_all_auths();

    let user = Address::generate(&env);

    client.define_badge(&admin, 1u64, make_hash(11), 200i128);
    client.define_badge(&admin, 2u64, make_hash(12), 0i128);

    client.evaluate_user(&admin, &user, 1u64);
    client.award_badge(&admin, &user, 1u64);

    client.evaluate_user(&admin, &user, 2u64);
    client.award_badge(&admin, &user, 2u64);

    let badges = client.badges_of(&user);
    assert_eq!(badges.len(), 2);
    assert_eq!(badges.get(0).copied().unwrap(), 1u64);
    assert_eq!(badges.get(1).copied().unwrap(), 2u64);

    assert!(client.try_award_badge(&admin, &user, 1u64).is_err());
}

#[test]
fn badge_error_codes() {
    assert_eq!(Error::AlreadyInitialized.code(), 1);
    assert_eq!(Error::NotInitialized.code(), 2);
    assert_eq!(Error::NotAuthorized.code(), 3);
    assert_eq!(Error::BadgeNotFound.code(), 4);
    assert_eq!(Error::BadgeAlreadyExists.code(), 5);
    assert_eq!(Error::BadgeAlreadyAwarded.code(), 6);
    assert_eq!(Error::InvalidInput.code(), 7);
}

#[test]
fn init_succeeds_once_whoever_asks_again() {
    let env = new_env();
    let (client, admin, _) = setup(&env);
    let other = Address::generate(&env);
    assert_eq!(client.try_init(&other, &other), Err(Error::AlreadyInitialized));
    // The first administrator stays.
    assert_eq!(client.try_define_badge(&other, 1, make_hash(1), 0), Err(Error::NotAuthorized));
    assert_eq!(client.try_define_badge(&admin, 1, make_hash(1), 0), Ok(()));
}

#[test]
fn define_checks_in_order() {
    let env = new_env();
    let (client, admin, _) = setup(&env);
    let stranger = Address::generate(&env);
    client.define_badge(&admin, 1, make_hash(1), 0);
    // Authorization comes before the reward, the reward before the identifier.
    assert_eq!(client.try_define_badge(&stranger, 1, make_hash(1), -5), Err(Error::NotAuthorized));
    assert_eq!(client.try_define_badge(&admin, 1, make_hash(1), -5), Err(Error::InvalidInput));
    assert_eq!(client.try_define_badge(&admin, 1, make_hash(2), 9), Err(Error::BadgeAlreadyExists));
    assert_eq!(client.try_define_badge(&admin, 2, make_hash(2), i128::MIN), Err(Error::InvalidInput));
    assert_eq!(client.try_define_badge(&admin, 2, make_hash(2), i128::MAX), Ok(()));
    assert_eq!(client.try_define_badge(&admin, u64::MAX, make_hash(3), 0), Ok(()));
}

#[test]
fn award_checks_in_order() {
    let env = new_env();
    let (client, admin, _) = setup(&env);
    let stranger = Address::generate(&env);
    let user = Address::generate(&env);
    assert_eq!(client.try_award_badge(&stranger, &user, 1), Err(Error::NotAuthorized));
    assert_eq!(client.try_award_badge(&admin, &user, 1), Err(Error::BadgeNotFound));
    client.define_badge(&admin, 1, make_hash(1), 0);
    client.award_badge(&admin, &user, 1);
    assert_eq!(client.try_award_badge(&stranger, &user, 1), Err(Error::NotAuthorized));
    assert_eq!(client.try_award_badge(&admin, &user, 1), Err(Error::BadgeAlreadyAwarded));
    assert_eq!(client.try_award_badge(&admin, &user, 2), Err(Error::BadgeNotFound));
}

#[test]
fn a_second_award_changes_nothing() {
    let env = new_env();
    let (client, admin, _) = setup(&env);
    let user = Address::generate(&env);
    client.define_badge(&admin, 1, make_hash(1), 5);
    client.define_badge(&admin, 2, make_hash(2), 5);
    client.award_badge(&admin, &user, 2);
    client.award_badge(&admin, &user, 1);
    let after_first = client.badges_of(&user);
    assert_eq!(after_first, vec![2u64, 1u64]);
    assert_eq!(client.try_award_badge(&admin, &user, 2), Err(Error::BadgeAlreadyAwarded));
    assert_eq!(client.try_award_badge(&admin, &user, 1), Err(Error::BadgeAlreadyAwarded));
    assert_eq!(client.badges_of(&user), after_first);
}

#[test]
fn badges_come_back_in_the_order_of_award() {
    let env = new_env();
    let (client, admin, _) = setup(&env);
    let user = Address::generate(&env);
    assert_eq!(client.badges_of(&user), Vec::<u64>::new());
    for id in [1u64, 2, 3] {
        client.define_badge(&admin, id, make_hash(id as u8), 0);
    }
    for id in [1u64, 2, 3] {
        client.award_badge(&admin, &user, id);
    }
    assert_eq!(client.badges_of(&user), vec![1u64, 2, 3]);

    let other = Address::generate(&env);
    for id in [3u64, 1] {
        client.award_badge(&admin, &other, id);
    }
    assert_eq!(client.badges_of(&other), vec![3u64, 1]);
    assert_eq!(client.badges_of(&user), vec![1u64, 2, 3]);
}

#[test]
fn badges_of_needs_no_administrator() {
    let env = new_env();
    let client = Client::new(&env);
    let user = Address::generate(&env);
    assert_eq!(client.badges_of(&user), Vec::<u64>::new());
}

#[test]
fn evaluation_awards_nothing() {
    let env = new_env();
    let (client, admin, _) = setup(&env);
    let user = Address::generate(&env);
    client.define_badge(&admin, 1, make_hash(1), 0);
    client.evaluate_user(&admin, &user, 1);
    client.evaluate_user(&admin, &user, 1);
    assert_eq!(client.badges_of(&user), Vec::<u64>::new());
    client.award_badge(&admin, &user, 1);
    client.evaluate_user(&admin, &user, 1);
    assert_eq!(client.badges_of(&user), vec![1u64]);
}

#[test]
fn badge_end_to_end() {
    let env = new_env();
    let (client, a, _) = setup(&env);
    let u = Address::generate(&env);
    let h = make_hash(0xab);
    assert_eq!(client.try_define_badge(&a, 1, h, 200), Ok(()));
    assert_eq!(client.try_award_badge(&a, &u, 1), Ok(()));
    assert_eq!(client.try_award_badge(&a, &u, 1), Err(Error::BadgeAlreadyAwarded));
    assert_eq!(client.badges_of(&u), vec![1u64]);
}
