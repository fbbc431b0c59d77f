use soroban_sdk::testutils::{Address as _, ContractFunctionSet, EnvTestConfig};
use soroban_sdk::{Address, Env, Val};
use stellarcade::tournament_system::{Error, TournamentData, TournamentStatus, TournamentSystem};

/// A contract without entry points: the operations run in its frame and on
/// its storage.
struct Frame;

impl ContractFunctionSet for Frame {
    fn call(&self, _func: &str, _env: Env, _args: &[Val]) -> Option<Val> {
        None
    }
}

struct Client {
    env: Env,
    contract: Address,
}

impl Client {
    fn new(env: &Env) -> Client {
        Client { env: env.clone(), contract: env.register(Frame, ()) }
    }

    fn try_init(
        &self,
        admin: &Address,
        fee_contract: &Address,
        reward_contract: &Address,
    ) -> Result<(), Error> {
        let mut env = self.env.clone();
        self.env.as_contract(&self.contract, || {
            TournamentSystem::init(&mut env, admin, fee_contract, reward_contract)
        })
    }

    fn try_create_tournament(
        &self,
        admin: &Address,
        id: u64,
        rules_hash: [u8; 32],
        entry_fee: i128,
    ) -> Result<(), Error> {
        let mut env = self.env.clone();
        self.env.as_contract(&self.contract, || {
            TournamentSystem::create_tournament(&mut env, admin, id, rules_hash, entry_fee)
        })
    }

    fn try_join_tournament(&self, player: &Address, id: u64) -> Result<(), Error> {
        let mut env = self.env.clone();
        self.env
            .as_contract(&self.contract, || TournamentSystem::join_tournament(&mut env, player, id))
    }

    fn try_record_result(
        &self,
        admin: &Address,
        id: u64,
        player: &Address,
        score: u64,
    ) -> Result<(), Error> {
        let mut env = self.env.clone();
        self.env.as_contract(&self.contract, || {
            TournamentSystem::record_result(&mut env, admin, id, player, score)
        })
    }

    fn try_finalize_tournament(&self, admin: &Address, id: u64) -> Result<(), Error> {
        let mut env = self.env.clone();
        self.env.as_contract(&self.contract, || {
            TournamentSystem::finalize_tournament(&mut env, admin, id)
        })
    }

    fn init(&self, admin: &Address, fee_contract: &Address, reward_contract: &Address) {
        self.try_init(admin, fee_contract, reward_contract).unwrap()
    }

    fn create_tournament(&self, admin: &Address, id: u64, rules_hash: [u8; 32], entry_fee: i128) {
        self.try_create_tournament(admin, id, rules_hash, entry_fee).unwrap()
    }

    fn join_tournament(&self, player: &Address, id: u64) {
        self.try_join_tournament(player, id).unwrap()
    }

    fn record_result(&self, admin: &Address, id: u64, player: &Address, score: u64) {
        self.try_record_result(admin, id, player, score).unwrap()
    }

    fn finalize_tournament(&self, admin: &Address, id: u64) {
        self.try_finalize_tournament(admin, id).unwrap()
    }

    fn get_tournament(&self, id: u64) -> Option<TournamentData> {
        self.env.as_contract(&self.contract, || TournamentSystem::get_tournament(&self.env, id))
    }

    fn get_score(&self, id: u64, player: &Address) -> Option<u64> {
        self.env.as_contract(&self.contract, || TournamentSystem::get_score(&self.env, id, player))
    }

    fn is_joined(&self, id: u64, player: &Address) -> bool {
        self.env.as_contract(&self.contract, || TournamentSystem::is_joined(&self.env, id, player))
    }
}

/// A host that keeps its records in memory and writes no file when it goes.
fn new_env() -> Env {
    Env::new_with_config(EnvTestConfig { capture_snapshot_at_drop: false })
}

fn setup(env: &Env) -> (Client, Address, Address, Address) {
    let admin = Address::generate(env);
    let fee_contract = Address::generate(env);
    let reward_contract = Address::generate(env);
    let client = Client::new(env);
    // The administrator to be authorizes the setup.
    env.mock_all_auths();
    client.init(&admin, &fee_contract, &reward_contract);
    (client, admin, fee_contract, reward_contract)
}

#[test]
fn test_init_and_create() {
    let env = new_env();
    let (client, admin, _, _) = setup(&env);

    let id = 101u64;
    let rules_hash = [0u8; 32];
    let entry_fee = 100i128;

    env.mock_all_auths();
    client.create_tournament(&admin, id, rules_hash, entry_fee);

    let t = client.get_tournament(id).unwrap();
    assert_eq!(t.entry_fee, 100);
    assert_eq!(t.status, TournamentStatus::Active);
}

#[test]
fn test_join_tournament() {
    let env = new_env();
    let (client, admin, _, _) = setup(&env);

    let id = 1u64;
    let rules_hash = [0u8; 32];
    let entry_fee = 50i128;

    env.mock_all_auths();
    client.create_tournament(&admin, id, rules_hash, entry_fee);

    let player = Address::generate(&env);
    client.join_tournament(&player, id);

    assert!(client.is_joined(id, &player));
}

#[test]
fn test_join_twice_fails() {
    let env = new_env();
    let (client, admin, _, _) = setup(&env);

    let id = 1u64;
    env.mock_all_auths();
    client.create_tournament(&admin, id, [0u8; 32], 0i128);

    let player = Address::generate(&env);
    client.join_tournament(&player, id);

    let result = client.try_join_tournament(&player, id);
    assert_eq!(result, Err(Error::PlayerAlreadyJoined));
}

#[test]
fn test_record_and_finalize() {
    let env = new_env();
    let (client, admin, _, _) = setup(&env);

    let id = 1u64;
    env.mock_all_auths();
    client.create_tournament(&admin, id, [0u8; 32], 0i128);

    let player = Address::generate(&env);
    client.join_tournament(&player, id);

    client.record_result(&admin, id, &player, 9500u64);
    assert_eq!(client.get_score(id, &player), Some(9500));

    client.finalize_tournament(&admin, id);
    let t = client.get_tournament(id).unwrap();
    assert_eq!(t.status, TournamentStatus::Finalized);
}

#[test]
fn test_cannot_join_finalized() {
    let env = new_env();
    let (client, admin, _, _) = setup(&env);

    let id = 1u64;
    env.mock_all_auths();
    client.create_tournament(&admin, id, [0u8; 32], 0i128);
    client.finalize_tournament(&admin, id);

    let player = Address::generate(&env);
    let result = client.try_join_tournament(&player, id);
    assert_eq!(result, Err(Error::TournamentNotActive));
}

#[test]
fn test_record_result_unjoined_fails() {
    let env = new_env();
    let (client, admin, _, _) = setup(&env);

    let id = 1u64;
    env.mock_all_auths();
    client.create_tournament(&admin, id, [0u8; 32], 0i128);

    let player = Address::generate(&env);
    let result = client.try_record_result(&admin, id, &player, 100u64);
    assert_eq!(result, Err(Error::PlayerNotJoined));
}

#[test]
fn test_unauthorized_create_fails() {
    let env = new_env();
    let (client, _, _, _) = setup(&env);

    let attacker = Address::generate(&env);
    env.mock_all_auths();
    let result = client.try_create_tournament(&attacker, 1u64, [0u8; 32], 0i128);
    assert_eq!(result, Err(Error::NotAuthorized));
}

#[test]
fn tournament_reinit_is_rejected() {
    let env = new_env();
    let (client, admin, fee_contract, reward_contract) = setup(&env);
    assert_eq!(
        client.try_init(&admin, &fee_contract, &reward_contract),
        Err(Error::AlreadyInitialized)
    );
    let other = Address::generate(&env);
    assert_eq!(client.try_init(&other, &other, &other), Err(Error::AlreadyInitialized));
    // The first administrator stays.
    assert_eq!(client.try_create_tournament(&other, 1, [0u8; 32], 0), Err(Error::NotAuthorized));
    assert_eq!(client.try_create_tournament(&admin, 1, [0u8; 32], 0), Ok(()));
}

#[test]
fn tournament_init_is_authorized_by_the_administrator() {
    let env = new_env();
    let client = Client::new(&env);
    let admin = Address::generate(&env);
    let fee_contract = Address::generate(&env);
    let reward_contract = Address::generate(&env);
    env.mock_all_auths();

    assert_eq!(client.try_init(&admin, &fee_contract, &reward_contract), Ok(()));
    // The administrator was asked, and nobody else.
    assert_eq!(env.auths().len(), 1);
    assert_eq!(env.auths()[0].0, admin);

    // A setup that is turned away asks nobody.
    assert_eq!(
        client.try_init(&fee_contract, &fee_contract, &reward_contract),
        Err(Error::AlreadyInitialized)
    );
    assert_eq!(env.auths().len(), 0);
}

#[test]
fn privileged_calls_need_an_administrator() {
    let env = new_env();
    let client = Client::new(&env);
    env.mock_all_auths();
    let admin = Address::generate(&env);
    let player = Address::generate(&env);
    assert_eq!(client.try_create_tournament(&admin, 1, [0u8; 32], 0), Err(Error::NotInitialized));
    assert_eq!(client.try_record_result(&admin, 1, &player, 5), Err(Error::NotInitialized));
    assert_eq!(client.try_finalize_tournament(&admin, 1), Err(Error::NotInitialized));
    assert_eq!(client.try_join_tournament(&player, 1), Err(Error::TournamentNotFound));
}

#[test]
fn create_checks_the_fee_before_the_identifier() {
    let env = new_env();
    let (client, admin, _, _) = setup(&env);
    env.mock_all_auths();
    assert_eq!(client.try_create_tournament(&admin, 1, [1u8; 32], -1), Err(Error::InvalidAmount));
    assert_eq!(client.get_tournament(1), None);
    client.create_tournament(&admin, 1, [1u8; 32], 0);
    assert_eq!(client.try_create_tournament(&admin, 1, [2u8; 32], -1), Err(Error::InvalidAmount));
    assert_eq!(
        client.try_create_tournament(&admin, 1, [2u8; 32], 7),
        Err(Error::TournamentAlreadyExists)
    );
    assert_eq!(
        client.get_tournament(1),
        Some(TournamentData {
            rules_hash: [1u8; 32],
            entry_fee: 0,
            status: TournamentStatus::Active
        })
    );
}

#[test]
fn a_tournament_is_read_back_as_it_was_created() {
    let env = new_env();
    let (client, admin, _, _) = setup(&env);
    env.mock_all_auths();
    let mut rules = [0u8; 32];
    for (i, b) in rules.iter_mut().enumerate() {
        *b = i as u8;
    }
    client.create_tournament(&admin, 77, rules, i128::MAX);
    assert_eq!(
        client.get_tournament(77),
        Some(TournamentData {
            rules_hash: rules,
            entry_fee: i128::MAX,
            status: TournamentStatus::Active
        })
    );
    assert_eq!(client.get_tournament(78), None);
    client.finalize_tournament(&admin, 77);
    assert_eq!(
        client.get_tournament(77),
        Some(TournamentData {
            rules_hash: rules,
            entry_fee: i128::MAX,
            status: TournamentStatus::Finalized
        })
    );
}

#[test]
fn missing_tournament_is_reported() {
    let env = new_env();
    let (client, admin, _, _) = setup(&env);
    env.mock_all_auths();
    let player = Address::generate(&env);
    assert_eq!(client.try_join_tournament(&player, 9), Err(Error::TournamentNotFound));
    assert_eq!(client.try_record_result(&admin, 9, &player, 1), Err(Error::TournamentNotFound));
    assert_eq!(client.try_finalize_tournament(&admin, 9), Err(Error::TournamentNotFound));
    assert!(!client.is_joined(9, &player));
    assert_eq!(client.get_score(9, &player), None);
}

#[test]
fn finalized_tournament_takes_nothing_more() {
    let env = new_env();
    let (client, admin, _, _) = setup(&env);
    env.mock_all_auths();
    client.create_tournament(&admin, 1, [0u8; 32], 50);
    let joined = Address::generate(&env);
    let late = Address::generate(&env);
    client.join_tournament(&joined, 1);
    client.record_result(&admin, 1, &joined, 10);
    client.finalize_tournament(&admin, 1);

    assert_eq!(client.try_join_tournament(&late, 1), Err(Error::TournamentNotActive));
    assert_eq!(client.try_join_tournament(&joined, 1), Err(Error::TournamentNotActive));
    assert_eq!(client.try_record_result(&admin, 1, &joined, 11), Err(Error::TournamentNotActive));
    assert_eq!(client.try_record_result(&admin, 1, &late, 11), Err(Error::TournamentNotActive));
    assert_eq!(client.try_finalize_tournament(&admin, 1), Err(Error::TournamentAlreadyFinalized));

    assert_eq!(client.get_score(1, &joined), Some(10));
    assert!(client.is_joined(1, &joined));
    assert!(!client.is_joined(1, &late));
}

#[test]
fn a_second_join_changes_nothing() {
    let env = new_env();
    let (client, admin, _, _) = setup(&env);
    env.mock_all_auths();
    client.create_tournament(&admin, 1, [0u8; 32], 50);
    client.create_tournament(&admin, 2, [0u8; 32], 50);
    let player = Address::generate(&env);
    let other = Address::generate(&env);
    client.join_tournament(&player, 1);
    assert_eq!(client.try_join_tournament(&player, 1), Err(Error::PlayerAlreadyJoined));
    assert!(client.is_joined(1, &player));
    assert!(!client.is_joined(2, &player));
    assert!(!client.is_joined(1, &other));
    client.join_tournament(&player, 2);
    client.join_tournament(&other, 1);
    assert!(client.is_joined(2, &player));
    assert!(client.is_joined(1, &other));
}

#[test]
fn a_result_is_overwritten_and_kept_apart() {
    let env = new_env();
    let (client, admin, _, _) = setup(&env);
    env.mock_all_auths();
    client.create_tournament(&admin, 1, [0u8; 32], 0);
    client.create_tournament(&admin, 2, [0u8; 32], 0);
    let a = Address::generate(&env);
    let b = Address::generate(&env);
    client.join_tournament(&a, 1);
    client.join_tournament(&b, 1);
    client.join_tournament(&a, 2);
    assert_eq!(client.get_score(1, &a), None);
    client.record_result(&admin, 1, &a, 100);
    client.record_result(&admin, 1, &b, u64::MAX);
    client.record_result(&admin, 2, &a, 0);
    assert_eq!(client.get_score(1, &a), Some(100));
    assert_eq!(client.get_score(1, &b), Some(u64::MAX));
    assert_eq!(client.get_score(2, &a), Some(0));
    client.record_result(&admin, 1, &a, 7);
    assert_eq!(client.get_score(1, &a), Some(7));
    assert_eq!(client.get_score(1, &b), Some(u64::MAX));
}

#[test]
fn record_and_finalize_are_for_the_administrator() {
    let env = new_env();
    let (client, admin, _, _) = setup(&env);
    env.mock_all_auths();
    client.create_tournament(&admin, 1, [0u8; 32], 0);
    let player = Address::generate(&env);
    client.join_tournament(&player, 1);
    assert_eq!(client.try_record_result(&player, 1, &player, 3), Err(Error::NotAuthorized));
    assert_eq!(client.try_finalize_tournament(&player, 1), Err(Error::NotAuthorized));
    assert_eq!(client.try_record_result(&player, 9, &player, 3), Err(Error::NotAuthorized));
    assert_eq!(client.get_score(1, &player), None);
    assert_eq!(client.get_tournament(1).unwrap().status, TournamentStatus::Active);
}

#[test]
fn tournament_end_to_end() {
    let env = new_env();
    let (client, a, _, _) = setup(&env);
    env.mock_all_auths();
    client.create_tournament(&a, 1, [0u8; 32], 50);
    let p = Address::generate(&env);
    let q = Address::generate(&env);
    assert_eq!(client.try_join_tournament(&p, 1), Ok(()));
    assert!(client.is_joined(1, &p));
    assert_eq!(client.try_record_result(&a, 1, &p, 9500), Ok(()));
    assert_eq!(client.get_score(1, &p), Some(9500));
    assert_eq!(client.try_finalize_tournament(&a, 1), Ok(()));
    assert_eq!(client.get_tournament(1).unwrap().status, TournamentStatus::Finalized);
    assert_eq!(client.try_join_tournament(&q, 1), Err(Error::TournamentNotActive));
}

#[test]
fn tournament_error_codes() {
    assert_eq!(Error::AlreadyInitialized.code(), 1);
    assert_eq!(Error::NotInitialized.code(), 2);
    assert_eq!(Error::NotAuthorized.code(), 3);
    assert_eq!(Error::InvalidAmount.code(), 4);
    assert_eq!(Error::TournamentNotFound.code(), 5);
    assert_eq!(Error::TournamentAlreadyExists.code(), 6);
    assert_eq!(Error::TournamentNotActive.code(), 7);
    assert_eq!(Error::TournamentAlreadyFinalized.code(), 8);
    assert_eq!(Error::PlayerAlreadyJoined.code(), 9);
    assert_eq!(Error::PlayerNotJoined.code(), 10);
    assert_eq!(Error::InvalidStateTransition.code(), 11);
    assert_eq!(Error::Overflow.code(), 12);
}
