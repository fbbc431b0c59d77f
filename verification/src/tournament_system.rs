//! Tournaments.
//!
//! The administrator creates tournaments, each with a commitment to its rules
//! and an entry fee. Players join an active tournament once; the
//! administrator records their scores and at last finalizes the tournament,
//! after which it takes no more players and no more scores.

use crate::host;
use crate::host::{address_strkey, Entry, Notice, Slot, Stored, World};
use soroban_sdk::{Address, Env};
use vstd::prelude::*;

verus! {

/// How many ledgers a persistent record is kept alive for after each write:
/// about thirty days.
pub const PERSISTENT_BUMP_LEDGERS: u32 = 518_400;

/// Why a call is turned away.
#[derive(Copy, Clone, Debug, PartialEq, Eq, PartialOrd, Ord, Structural)]
pub enum Error {
    /// The contract already has an administrator.
    AlreadyInitialized,
    /// The contract has no administrator yet.
    NotInitialized,
    /// The caller is not the administrator.
    NotAuthorized,
    /// The entry fee is negative.
    InvalidAmount,
    /// There is no tournament under the identifier.
    TournamentNotFound,
    /// There is already a tournament under the identifier.
    TournamentAlreadyExists,
    /// The tournament is finalized.
    TournamentNotActive,
    /// The tournament is finalized already.
    TournamentAlreadyFinalized,
    /// The player has joined the tournament before.
    PlayerAlreadyJoined,
    /// The player has not joined the tournament.
    PlayerNotJoined,
    /// Kept for callers that know the number; no operation answers with it.
    InvalidStateTransition,
    /// Kept for callers that know the number; no operation answers with it.
    Overflow,
}

impl Error {
    /// The number under which the error is reported.
    pub open spec fn code_of(self) -> u32 {
        match self {
            Error::AlreadyInitialized => 1,
            Error::NotInitialized => 2,
            Error::NotAuthorized => 3,
            Error::InvalidAmount => 4,
            Error::TournamentNotFound => 5,
            Error::TournamentAlreadyExists => 6,
            Error::TournamentNotActive => 7,
            Error::TournamentAlreadyFinalized => 8,
            Error::PlayerAlreadyJoined => 9,
            Error::PlayerNotJoined => 10,
            Error::InvalidStateTransition => 11,
            Error::Overflow => 12,
        }
    }

    /// The number under which the error is reported to the caller of the
    /// contract.
    pub fn code(&self) -> (c: u32)
        ensures
            c == self.code_of(),
    {
        match self {
            Error::AlreadyInitialized => 1,
            Error::NotInitialized => 2,
            Error::NotAuthorized => 3,
            Error::InvalidAmount => 4,
            Error::TournamentNotFound => 5,
            Error::TournamentAlreadyExists => 6,
            Error::TournamentNotActive => 7,
            Error::TournamentAlreadyFinalized => 8,
            Error::PlayerAlreadyJoined => 9,
            Error::PlayerNotJoined => 10,
            Error::InvalidStateTransition => 11,
            Error::Overflow => 12,
        }
    }
}

/// The state of a tournament. It starts `Active` and moves to `Finalized`
/// once, never back.
#[derive(Copy, Clone, Debug, PartialEq, Eq, Structural)]
pub enum TournamentStatus {
    /// Accepting players and scores.
    Active,
    /// Closed: no more changes.
    Finalized,
}

/// A tournament as it is stored: the hash of its rules, its entry fee and
/// its state.
#[derive(Clone, Copy, Debug, PartialEq, Eq)]
pub struct TournamentData {
    pub rules_hash: [u8; 32],
    pub entry_fee: i128,
    pub status: TournamentStatus,
}

impl TournamentData {
    /// The tournament as the storage holds it.
    pub open spec fn entry(self) -> Entry {
        Entry {
            commitment: self.rules_hash,
            amount: self.entry_fee,
            closed: self.status is Finalized,
        }
    }

    /// The tournament that a stored record stands for.
    pub open spec fn of_entry(e: Entry) -> TournamentData {
        TournamentData {
            rules_hash: e.commitment,
            entry_fee: e.amount,
            status: if e.closed {
                TournamentStatus::Finalized
            } else {
                TournamentStatus::Active
            },
        }
    }

    fn from_entry(e: Entry) -> (t: TournamentData)
        ensures
            t == Self::of_entry(e),
    {
        TournamentData {
            rules_hash: e.commitment,
            entry_fee: e.amount,
            status: if e.closed {
                TournamentStatus::Finalized
            } else {
                TournamentStatus::Active
            },
        }
    }

    fn to_entry(&self) -> (e: Entry)
        ensures
            e == self.entry(),
    {
        Entry {
            commitment: self.rules_hash,
            amount: self.entry_fee,
            closed: match self.status {
                TournamentStatus::Active => false,
                TournamentStatus::Finalized => true,
            },
        }
    }
}

/// The keys of the contract's records. `Admin`, `FeeContract` and
/// `RewardContract` live in the instance storage, the others in the
/// persistent storage.
pub enum DataKey<'a> {
    Admin,
    FeeContract,
    RewardContract,
    /// The record of a tournament.
    Tournament(u64),
    /// The marker that a player has joined a tournament.
    PlayerJoined(u64, &'a Address),
    /// The score of a player in a tournament.
    PlayerScore(u64, &'a Address),
}

impl<'a> DataKey<'a> {
    /// The kind under which the record of this key is written.
    pub open spec fn kind_of(self) -> Seq<char> {
        match self {
            DataKey::Admin => "Admin"@,
            DataKey::FeeContract => "FeeContract"@,
            DataKey::RewardContract => "RewardContract"@,
            DataKey::Tournament(_) => "Tournament"@,
            DataKey::PlayerJoined(_, _) => "PlayerJoined"@,
            DataKey::PlayerScore(_, _) => "PlayerScore"@,
        }
    }

    /// The identifier of the entity that the key is about, where it has one.
    pub open spec fn id_of(self) -> Option<u64> {
        match self {
            DataKey::Tournament(id) => Some(id),
            DataKey::PlayerJoined(id, _) => Some(id),
            DataKey::PlayerScore(id, _) => Some(id),
            _ => None,
        }
    }

    /// The address of the subject that the key is about, where it has one.
    pub open spec fn holder(self) -> Option<&'a Address> {
        match self {
            DataKey::PlayerJoined(_, player) => Some(player),
            DataKey::PlayerScore(_, player) => Some(player),
            _ => None,
        }
    }

    /// The strkey of the subject that the key is about, where it has one.
    pub open spec fn subject_of(self) -> Option<Seq<u8>> {
        host::subject_of(self.holder())
    }

    /// The kind under which the record of this key is written.
    pub fn kind(&self) -> (kind: &'static str)
        ensures
            kind@ == self.kind_of(),
    {
        match self {
            DataKey::Admin => "Admin",
            DataKey::FeeContract => "FeeContract",
            DataKey::RewardContract => "RewardContract",
            DataKey::Tournament(_) => "Tournament",
            DataKey::PlayerJoined(_, _) => "PlayerJoined",
            DataKey::PlayerScore(_, _) => "PlayerScore",
        }
    }

    /// The identifier of the entity that the key is about, where it has one.
    pub fn id(&self) -> (id: Option<u64>)
        ensures
            id == self.id_of(),
    {
        match self {
            DataKey::Tournament(id) => Some(*id),
            DataKey::PlayerJoined(id, _) => Some(*id),
            DataKey::PlayerScore(id, _) => Some(*id),
            _ => None,
        }
    }

    /// The subject that the key is about, where it has one.
    pub fn subject(&self) -> (subject: Option<&'a Address>)
        ensures
            subject == self.holder(),
    {
        match self {
            DataKey::PlayerJoined(_, player) => Some(*player),
            DataKey::PlayerScore(_, player) => Some(*player),
            _ => None,
        }
    }
}

/// Reports that a tournament was created.
pub struct TournamentCreated {
    pub id: u64,
    pub rules_hash: [u8; 32],
    pub entry_fee: i128,
}

/// Reports that a player joined a tournament, with the fee that is due.
pub struct PlayerJoined<'a> {
    pub id: u64,
    pub player: &'a Address,
    pub fee_paid: i128,
}

/// Reports the score recorded for a player.
pub struct ResultRecorded<'a> {
    pub id: u64,
    pub player: &'a Address,
    pub score: u64,
}

/// Reports that a tournament was finalized.
pub struct TournamentFinalized {
    pub id: u64,
}

impl TournamentCreated {
    /// The event as the log holds it.
    pub open spec fn notice(self) -> Notice {
        Notice {
            topic: "tournament_created"@,
            id: self.id,
            subject: None,
            commitment: Some(self.rules_hash),
            amount: Some(self.entry_fee),
        }
    }

    /// Appends the event to the contract's log.
    pub fn publish(&self, env: &mut Env)
        requires
            host::in_contract(*old(env)),
        ensures
            host::in_contract(*final(env)),
            host::world(*final(env)) == (World {
                published: host::world(*old(env)).published.push(self.notice()),
                ..host::world(*old(env))
            }),
            forall|k: Seq<u8>| host::authorized(*final(env), k) == host::authorized(*old(env), k),
            host::renewed(*old(env), *final(env), None, 0),
            host::same_addresses(*old(env), *final(env)),
            host::demanded(*final(env)) == host::demanded(*old(env)),
    {
        host::publish(
            env,
            "tournament_created",
            self.id,
            None,
            Some(self.rules_hash),
            Some(self.entry_fee),
        );
    }
}

impl<'a> PlayerJoined<'a> {
    /// The event as the log holds it.
    pub open spec fn notice(self) -> Notice {
        Notice {
            topic: "player_joined"@,
            id: self.id,
            subject: Some(address_strkey(*self.player)),
            commitment: None,
            amount: Some(self.fee_paid),
        }
    }

    /// Appends the event to the contract's log.
    pub fn publish(&self, env: &mut Env)
        requires
            host::in_contract(*old(env)),
            host::of_host(*old(env), *self.player),
        ensures
            host::in_contract(*final(env)),
            host::world(*final(env)) == (World {
                published: host::world(*old(env)).published.push(self.notice()),
                ..host::world(*old(env))
            }),
            forall|k: Seq<u8>| host::authorized(*final(env), k) == host::authorized(*old(env), k),
            host::renewed(*old(env), *final(env), None, 0),
            host::same_addresses(*old(env), *final(env)),
            host::demanded(*final(env)) == host::demanded(*old(env)),
    {
        host::publish(env, "player_joined", self.id, Some(self.player), None, Some(self.fee_paid));
    }
}

impl<'a> ResultRecorded<'a> {
    /// The event as the log holds it.
    pub open spec fn notice(self) -> Notice {
        Notice {
            topic: "result_recorded"@,
            id: self.id,
            subject: Some(address_strkey(*self.player)),
            commitment: None,
            amount: Some(self.score as i128),
        }
    }

    /// Appends the event to the contract's log.
    pub fn publish(&self, env: &mut Env)
        requires
            host::in_contract(*old(env)),
            host::of_host(*old(env), *self.player),
        ensures
            host::in_contract(*final(env)),
            host::world(*final(env)) == (World {
                published: host::world(*old(env)).published.push(self.notice()),
                ..host::world(*old(env))
            }),
            forall|k: Seq<u8>| host::authorized(*final(env), k) == host::authorized(*old(env), k),
            host::renewed(*old(env), *final(env), None, 0),
            host::same_addresses(*old(env), *final(env)),
            host::demanded(*final(env)) == host::demanded(*old(env)),
    {
        host::publish(
            env,
            "result_recorded",
            self.id,
            Some(self.player),
            None,
            Some(self.score as i128),
        );
    }
}

impl TournamentFinalized {
    /// The event as the log holds it.
    pub open spec fn notice(self) -> Notice {
        Notice {
            topic: "tournament_finalized"@,
            id: self.id,
            subject: None,
            commitment: None,
            amount: None,
        }
    }

    /// Appends the event to the contract's log.
    pub fn publish(&self, env: &mut Env)
        requires
            host::in_contract(*old(env)),
        ensures
            host::in_contract(*final(env)),
            host::world(*final(env)) == (World {
                published: host::world(*old(env)).published.push(self.notice()),
                ..host::world(*old(env))
            }),
            forall|k: Seq<u8>| host::authorized(*final(env), k) == host::authorized(*old(env), k),
            host::renewed(*old(env), *final(env), None, 0),
            host::same_addresses(*old(env), *final(env)),
            host::demanded(*final(env)) == host::demanded(*old(env)),
    {
        host::publish(env, "tournament_finalized", self.id, None, None, None);
    }
}

/// The strkey of the administrator, once the contract is initialized.
pub open spec fn admin(w: World) -> Option<Seq<u8>> {
    host::party_at(w.instance, DataKey::Admin.kind_of())
}

/// Where the record of a tournament stands.
pub open spec fn tournament_slot(id: u64) -> Slot {
    Slot { kind: "Tournament"@, id: Some(id), subject: None }
}

/// Where the marker of a player in a tournament stands.
pub open spec fn joined_slot(id: u64, player: Seq<u8>) -> Slot {
    Slot { kind: "PlayerJoined"@, id: Some(id), subject: Some(player) }
}

/// Where the score of a player in a tournament stands.
pub open spec fn score_slot(id: u64, player: Seq<u8>) -> Slot {
    Slot { kind: "PlayerScore"@, id: Some(id), subject: Some(player) }
}

/// The tournament with this identifier, if there is one.
pub open spec fn tournament(w: World, id: u64) -> Option<TournamentData> {
    match host::entry_at(w.persistent, tournament_slot(id)) {
        Some(e) => Some(TournamentData::of_entry(e)),
        None => None,
    }
}

/// Whether the player has joined the tournament.
pub open spec fn joined(w: World, id: u64, player: Seq<u8>) -> bool {
    w.persistent.dom().contains(joined_slot(id, player))
}

/// The score recorded for the player in the tournament, if there is one.
pub open spec fn score(w: World, id: u64, player: Seq<u8>) -> Option<u64> {
    host::number_at(w.persistent, score_slot(id, player))
}

/// What a caller who asks for a privileged operation is told.
pub open spec fn clearance(w: World, caller: Seq<u8>) -> Result<(), Error> {
    match admin(w) {
        None => Err(Error::NotInitialized),
        Some(a) => if a == caller {
            Ok(())
        } else {
            Err(Error::NotAuthorized)
        },
    }
}

/// A call of one of the contract's operations, with its arguments.
pub enum Call {
    Init { admin: Seq<u8>, fee_contract: Seq<u8>, reward_contract: Seq<u8> },
    CreateTournament { admin: Seq<u8>, id: u64, rules_hash: [u8; 32], entry_fee: i128 },
    JoinTournament { player: Seq<u8>, id: u64 },
    RecordResult { admin: Seq<u8>, id: u64, player: Seq<u8>, score: u64 },
    FinalizeTournament { admin: Seq<u8>, id: u64 },
}

/// What a call returns in a given world.
pub open spec fn outcome(w: World, call: Call) -> Result<(), Error> {
    match call {
        Call::Init { admin, fee_contract, reward_contract } => {
            if w.instance.dom().contains(DataKey::Admin.kind_of()) {
                Err(Error::AlreadyInitialized)
            } else {
                Ok(())
            }
        },
        Call::CreateTournament { admin, id, rules_hash, entry_fee } => {
            if clearance(w, admin) is Err {
                clearance(w, admin)
            } else if entry_fee < 0 {
                Err(Error::InvalidAmount)
            } else if w.persistent.dom().contains(tournament_slot(id)) {
                Err(Error::TournamentAlreadyExists)
            } else {
                Ok(())
            }
        },
        Call::JoinTournament { player, id } => {
            match tournament(w, id) {
                None => Err(Error::TournamentNotFound),
                Some(t) => if t.status != TournamentStatus::Active {
                    Err(Error::TournamentNotActive)
                } else if joined(w, id, player) {
                    Err(Error::PlayerAlreadyJoined)
                } else {
                    Ok(())
                },
            }
        },
        Call::RecordResult { admin, id, player, score } => {
            if clearance(w, admin) is Err {
                clearance(w, admin)
            } else {
                match tournament(w, id) {
                    None => Err(Error::TournamentNotFound),
                    Some(t) => if t.status != TournamentStatus::Active {
                        Err(Error::TournamentNotActive)
                    } else if !joined(w, id, player) {
                        Err(Error::PlayerNotJoined)
                    } else {
                        Ok(())
                    },
                }
            }
        },
        Call::FinalizeTournament { admin, id } => {
            if clearance(w, admin) is Err {
                clearance(w, admin)
            } else {
                match tournament(w, id) {
                    None => Err(Error::TournamentNotFound),
                    Some(t) => if t.status == TournamentStatus::Finalized {
                        Err(Error::TournamentAlreadyFinalized)
                    } else {
                        Ok(())
                    },
                }
            }
        },
    }
}

/// The world that a call leaves behind. A call that fails leaves the world
/// as it found it.
pub open spec fn after(w: World, call: Call) -> World {
    if outcome(w, call) is Err {
        w
    } else {
        match call {
            Call::Init { admin, fee_contract, reward_contract } => World {
                instance: w.instance.insert(DataKey::Admin.kind_of(), Stored::Party(admin)).insert(
                    DataKey::FeeContract.kind_of(),
                    Stored::Party(fee_contract),
                ).insert(DataKey::RewardContract.kind_of(), Stored::Party(reward_contract)),
                ..w
            },
            Call::CreateTournament { admin, id, rules_hash, entry_fee } => World {
                persistent: w.persistent.insert(
                    tournament_slot(id),
                    Stored::Entry(
                        TournamentData {
                            rules_hash,
                            entry_fee,
                            status: TournamentStatus::Active,
                        }.entry(),
                    ),
                ),
                published: w.published.push(
                    TournamentCreated { id, rules_hash, entry_fee }.notice(),
                ),
                ..w
            },
            Call::JoinTournament { player, id } => World {
                persistent: w.persistent.insert(joined_slot(id, player), Stored::Flag(true)),
                published: w.published.push(
                    Notice {
                        topic: "player_joined"@,
                        id,
                        subject: Some(player),
                        commitment: None,
                        amount: Some(tournament(w, id)->Some_0.entry_fee),
                    },
                ),
                ..w
            },
            Call::RecordResult { admin, id, player, score } => World {
                persistent: w.persistent.insert(score_slot(id, player), Stored::Number(score)),
                published: w.published.push(
                    Notice {
                        topic: "result_recorded"@,
                        id,
                        subject: Some(player),
                        commitment: None,
                        amount: Some(score as i128),
                    },
                ),
                ..w
            },
            Call::FinalizeTournament { admin, id } => World {
                persistent: w.persistent.insert(
                    tournament_slot(id),
                    Stored::Entry(
                        TournamentData {
                            status: TournamentStatus::Finalized,
                            ..tournament(w, id)->Some_0
                        }.entry(),
                    ),
                ),
                published: w.published.push(TournamentFinalized { id }.notice()),
                ..w
            },
        }
    }
}

/// The record that a call writes, if it writes one.
pub open spec fn written(w: World, call: Call) -> Option<Slot> {
    if outcome(w, call) is Err {
        None
    } else {
        match call {
            Call::Init { .. } => None,
            Call::CreateTournament { id, .. } => Some(tournament_slot(id)),
            Call::JoinTournament { player, id } => Some(joined_slot(id, player)),
            Call::RecordResult { id, player, .. } => Some(score_slot(id, player)),
            Call::FinalizeTournament { id, .. } => Some(tournament_slot(id)),
        }
    }
}

/// The address whose authorization a call demands of the host, if it
/// demands one. Initialization asks the administrator to be, once it has
/// found the contract without one. A player who joins is asked once nothing
/// else stands against the join. Every other call asks its caller as soon as
/// the contract has an administrator, before it looks at anything else.
pub open spec fn asked(w: World, call: Call) -> Option<Seq<u8>> {
    match call {
        Call::Init { admin, .. } => if outcome(w, call) is Ok {
            Some(admin)
        } else {
            None
        },
        Call::JoinTournament { player, .. } => if outcome(w, call) is Ok {
            Some(player)
        } else {
            None
        },
        Call::CreateTournament { admin, .. } => if self::admin(w) is Some {
            Some(admin)
        } else {
            None
        },
        Call::RecordResult { admin, .. } => if self::admin(w) is Some {
            Some(admin)
        } else {
            None
        },
        Call::FinalizeTournament { admin, .. } => if self::admin(w) is Some {
            Some(admin)
        } else {
            None
        },
    }
}

/// Whether a call may be made: the host is executing the contract, and the
/// address whose authorization the call demands has given it. The host
/// aborts an invocation that demands an authorization it was not given.
/// Beside this every operation asks that the addresses it is handed are of
/// the host.
pub open spec fn admitted(env: Env, call: Call) -> bool {
    &&& host::in_contract(env)
    &&& asked(host::world(env), call) matches Some(who) ==> host::authorized(env, who)
}

/// Checks that `caller` is the administrator and has authorized the
/// invocation. Where the contract has an administrator the caller's
/// authorization is demanded, before the two are compared. Storage and
/// events are untouched.
pub fn require_admin(env: &mut Env, caller: &Address) -> (r: Result<(), Error>)
    requires
        host::in_contract(*old(env)),
        host::of_host(*old(env), *caller),
        admin(host::world(*old(env))) is Some ==> host::authorized(
            *old(env),
            address_strkey(*caller),
        ),
    ensures
        host::in_contract(*final(env)),
        host::world(*final(env)) == host::world(*old(env)),
        host::renewed(*old(env), *final(env), None, 0),
        host::same_addresses(*old(env), *final(env)),
        host::demanded(*final(env)) == host::demands_after(
            *old(env),
            if admin(host::world(*old(env))) is Some {
                Some(address_strkey(*caller))
            } else {
                None
            },
        ),
        r == clearance(host::world(*old(env)), address_strkey(*caller)),
{
    let stored = match host::instance_get_address(env, DataKey::Admin.kind()) {
        Some(a) => a,
        None => {
            return Err(Error::NotInitialized);
        },
    };
    host::require_auth(env, caller);
    if !host::same_address(caller, &stored) {
        return Err(Error::NotAuthorized);
    }
    Ok(())
}

/// The tournament contract.
pub struct TournamentSystem;

impl TournamentSystem {
    /// Sets the administrator, the fee contract and the reward contract, on
    /// the authorization of the administrator to be. Succeeds once; every
    /// later call fails with `AlreadyInitialized`.
    pub fn init(
        env: &mut Env,
        admin: &Address,
        fee_contract: &Address,
        reward_contract: &Address,
    ) -> (r: Result<(), Error>)
        requires
            host::of_host(*old(env), *admin),
            host::of_host(*old(env), *fee_contract),
            host::of_host(*old(env), *reward_contract),
            admitted(
                *old(env),
                Call::Init {
                    admin: address_strkey(*admin),
                    fee_contract: address_strkey(*fee_contract),
                    reward_contract: address_strkey(*reward_contract),
                },
            ),
        ensures
            ({
                let call = Call::Init {
                    admin: address_strkey(*admin),
                    fee_contract: address_strkey(*fee_contract),
                    reward_contract: address_strkey(*reward_contract),
                };
                &&& host::in_contract(*final(env))
                &&& r == outcome(host::world(*old(env)), call)
                &&& host::world(*final(env)) == after(host::world(*old(env)), call)
                &&& host::renewed(
                    *old(env),
                    *final(env),
                    written(host::world(*old(env)), call),
                    PERSISTENT_BUMP_LEDGERS,
                )
                &&& host::same_addresses(*old(env), *final(env))
                &&& host::demanded(*final(env)) == host::demands_after(
                    *old(env),
                    asked(host::world(*old(env)), call),
                )
            }),
    {
        if host::instance_has(env, DataKey::Admin.kind()) {
            return Err(Error::AlreadyInitialized);
        }
        host::require_auth(env, admin);
        host::instance_set_address(env, DataKey::Admin.kind(), admin);
        host::instance_set_address(env, DataKey::FeeContract.kind(), fee_contract);
        host::instance_set_address(env, DataKey::RewardContract.kind(), reward_contract);
        Ok(())
    }

    /// Creates a tournament in the `Active` state. Only the administrator
    /// may; the fee must not be negative; a tournament is created once.
    pub fn create_tournament(
        env: &mut Env,
        admin: &Address,
        id: u64,
        rules_hash: [u8; 32],
        entry_fee: i128,
    ) -> (r: Result<(), Error>)
        requires
            host::of_host(*old(env), *admin),
            admitted(
                *old(env),
                Call::CreateTournament { admin: address_strkey(*admin), id, rules_hash, entry_fee },
            ),
        ensures
            ({
                let call = Call::CreateTournament {
                    admin: address_strkey(*admin),
                    id,
                    rules_hash,
                    entry_fee,
                };
                &&& host::in_contract(*final(env))
                &&& r == outcome(host::world(*old(env)), call)
                &&& host::world(*final(env)) == after(host::world(*old(env)), call)
                &&& host::renewed(
                    *old(env),
                    *final(env),
                    written(host::world(*old(env)), call),
                    PERSISTENT_BUMP_LEDGERS,
                )
                &&& host::same_addresses(*old(env), *final(env))
                &&& host::demanded(*final(env)) == host::demands_after(
                    *old(env),
                    asked(host::world(*old(env)), call),
                )
            }),
    {
        require_admin(env, admin)?;
        if entry_fee < 0 {
            return Err(Error::InvalidAmount);
        }
        let key = DataKey::Tournament(id);
        if host::persistent_has(env, key.kind(), key.id(), key.subject()) {
            return Err(Error::TournamentAlreadyExists);
        }
        let data = TournamentData { rules_hash, entry_fee, status: TournamentStatus::Active };
        host::write_entry(
            env,
            key.kind(),
            key.id(),
            key.subject(),
            data.to_entry(),
            PERSISTENT_BUMP_LEDGERS,
        );
        TournamentCreated { id, rules_hash, entry_fee }.publish(env);
        Ok(())
    }

    /// Enters a player into an active tournament. The tournament must exist
    /// and be active, and the player must not have joined it before. The
    /// event carries the entry fee.
    pub fn join_tournament(env: &mut Env, player: &Address, id: u64) -> (r: Result<(), Error>)
        requires
            host::of_host(*old(env), *player),
            admitted(*old(env), Call::JoinTournament { player: address_strkey(*player), id }),
        ensures
            ({
                let call = Call::JoinTournament { player: address_strkey(*player), id };
                &&& host::in_contract(*final(env))
                &&& r == outcome(host::world(*old(env)), call)
                &&& host::world(*final(env)) == after(host::world(*old(env)), call)
                &&& host::renewed(
                    *old(env),
                    *final(env),
                    written(host::world(*old(env)), call),
                    PERSISTENT_BUMP_LEDGERS,
                )
                &&& host::same_addresses(*old(env), *final(env))
                &&& host::demanded(*final(env)) == host::demands_after(
                    *old(env),
                    asked(host::world(*old(env)), call),
                )
            }),
    {
        let tournament = match Self::get_tournament(env, id) {
            Some(t) => t,
            None => {
                return Err(Error::TournamentNotFound);
            },
        };
        if tournament.status != TournamentStatus::Active {
            return Err(Error::TournamentNotActive);
        }
        let join_key = DataKey::PlayerJoined(id, player);
        if host::persistent_has(env, join_key.kind(), join_key.id(), join_key.subject()) {
            return Err(Error::PlayerAlreadyJoined);
        }
        host::require_auth(env, player);
        host::write_flag(
            env,
            join_key.kind(),
            join_key.id(),
            join_key.subject(),
            true,
            PERSISTENT_BUMP_LEDGERS,
        );
        PlayerJoined { id, player, fee_paid: tournament.entry_fee }.publish(env);
        Ok(())
    }

    /// Records the score of a player, replacing an earlier one. Only the
    /// administrator may; the tournament must exist and be active, and the
    /// player must have joined it.
    pub fn record_result(
        env: &mut Env,
        admin: &Address,
        id: u64,
        player: &Address,
        score: u64,
    ) -> (r: Result<(), Error>)
        requires
            host::of_host(*old(env), *admin),
            host::of_host(*old(env), *player),
            admitted(
                *old(env),
                Call::RecordResult {
                    admin: address_strkey(*admin),
                    id,
                    player: address_strkey(*player),
                    score,
                },
            ),
        ensures
            ({
                let call = Call::RecordResult {
                    admin: address_strkey(*admin),
                    id,
                    player: address_strkey(*player),
                    score,
                };
                &&& host::in_contract(*final(env))
                &&& r == outcome(host::world(*old(env)), call)
                &&& host::world(*final(env)) == after(host::world(*old(env)), call)
                &&& host::renewed(
                    *old(env),
                    *final(env),
                    written(host::world(*old(env)), call),
                    PERSISTENT_BUMP_LEDGERS,
                )
                &&& host::same_addresses(*old(env), *final(env))
                &&& host::demanded(*final(env)) == host::demands_after(
                    *old(env),
                    asked(host::world(*old(env)), call),
                )
            }),
    {
        require_admin(env, admin)?;
        let tournament = match Self::get_tournament(env, id) {
            Some(t) => t,
            None => {
                return Err(Error::TournamentNotFound);
            },
        };
        if tournament.status != TournamentStatus::Active {
            return Err(Error::TournamentNotActive);
        }
        let join_key = DataKey::PlayerJoined(id, player);
        if !host::persistent_has(env, join_key.kind(), join_key.id(), join_key.subject()) {
            return Err(Error::PlayerNotJoined);
        }
        let score_key = DataKey::PlayerScore(id, player);
        host::write_number(
            env,
            score_key.kind(),
            score_key.id(),
            score_key.subject(),
            score,
            PERSISTENT_BUMP_LEDGERS,
        );
        ResultRecorded { id, player, score }.publish(env);
        Ok(())
    }

    /// Moves a tournament to `Finalized`, after which it takes no more
    /// players and no more scores. Only the administrator may; the
    /// tournament must exist and not be finalized already.
    pub fn finalize_tournament(env: &mut Env, admin: &Address, id: u64) -> (r: Result<(), Error>)
        requires
            host::of_host(*old(env), *admin),
            admitted(*old(env), Call::FinalizeTournament { admin: address_strkey(*admin), id }),
        ensures
            ({
                let call = Call::FinalizeTournament { admin: address_strkey(*admin), id };
                &&& host::in_contract(*final(env))
                &&& r == outcome(host::world(*old(env)), call)
                &&& host::world(*final(env)) == after(host::world(*old(env)), call)
                &&& host::renewed(
                    *old(env),
                    *final(env),
                    written(host::world(*old(env)), call),
                    PERSISTENT_BUMP_LEDGERS,
                )
                &&& host::same_addresses(*old(env), *final(env))
                &&& host::demanded(*final(env)) == host::demands_after(
                    *old(env),
                    asked(host::world(*old(env)), call),
                )
            }),
    {
        require_admin(env, admin)?;
        let mut tournament = match Self::get_tournament(env, id) {
            Some(t) => t,
            None => {
                return Err(Error::TournamentNotFound);
            },
        };
        if tournament.status == TournamentStatus::Finalized {
            return Err(Error::TournamentAlreadyFinalized);
        }
        tournament.status = TournamentStatus::Finalized;
        let key = DataKey::Tournament(id);
        host::write_entry(
            env,
            key.kind(),
            key.id(),
            key.subject(),
            tournament.to_entry(),
            PERSISTENT_BUMP_LEDGERS,
        );
        TournamentFinalized { id }.publish(env);
        Ok(())
    }

    /// The tournament with this identifier, if there is one.
    pub fn get_tournament(env: &Env, id: u64) -> (found: Option<TournamentData>)
        requires
            host::in_contract(*env),
        ensures
            found == tournament(host::world(*env), id),
    {
        let key = DataKey::Tournament(id);
        match host::persistent_get_entry(env, key.kind(), key.id(), key.subject()) {
            Some(e) => Some(TournamentData::from_entry(e)),
            None => None,
        }
    }

    /// The score recorded for the player in the tournament, if there is one.
    pub fn get_score(env: &Env, id: u64, player: &Address) -> (found: Option<u64>)
        requires
            host::in_contract(*env),
            host::of_host(*env, *player),
        ensures
            found == score(host::world(*env), id, address_strkey(*player)),
    {
        let key = DataKey::PlayerScore(id, player);
        host::persistent_get_number(env, key.kind(), key.id(), key.subject())
    }

    /// Whether the player has joined the tournament.
    pub fn is_joined(env: &Env, id: u64, player: &Address) -> (yes: bool)
        requires
            host::in_contract(*env),
            host::of_host(*env, *player),
        ensures
            yes == joined(host::world(*env), id, address_strkey(*player)),
    {
        let key = DataKey::PlayerJoined(id, player);
        host::persistent_has(env, key.kind(), key.id(), key.subject())
    }
}

} // verus!
