//! Achievement badges.
//!
//! The administrator defines badges, each with a commitment to its criteria
//! and a reward, records evaluations, and awards badges to users. A badge is
//! defined once, and a user holds each badge at most once.

use crate::host;
use crate::host::{address_strkey, Entry, Notice, Slot, Stored, World};
use soroban_sdk::{Address, Env};
use vstd::prelude::*;

verus! {

/// How many ledgers a persistent record is kept alive for after each write:
/// about thirty days.
pub const PERSISTENT_BUMP_LEDGERS: u32 = 518_400;

/// Why a call is turned away.
#[derive(Copy, Clone, Debug, PartialEq, Eq, PartialOrd, Ord, Structural)]
pub enum Error {
    /// The contract already has an administrator.
    AlreadyInitialized,
    /// The contract has no administrator yet.
    NotInitialized,
    /// The caller is not the administrator.
    NotAuthorized,
    /// No badge is defined under the identifier.
    BadgeNotFound,
    /// A badge is already defined under the identifier.
    BadgeAlreadyExists,
    /// The user already holds the badge.
    BadgeAlreadyAwarded,
    /// The reward is negative.
    InvalidInput,
}

impl Error {
    /// The number under which the error is reported.
    pub open spec fn code_of(self) -> u32 {
        match self {
            Error::AlreadyInitialized => 1,
            Error::NotInitialized => 2,
            Error::NotAuthorized => 3,
            Error::BadgeNotFound => 4,
            Error::BadgeAlreadyExists => 5,
            Error::BadgeAlreadyAwarded => 6,
            Error::InvalidInput => 7,
        }
    }

    /// The number under which the error is reported to the caller of the
    /// contract.
    pub fn code(&self) -> (c: u32)
        ensures
            c == self.code_of(),
    {
        match self {
            Error::AlreadyInitialized => 1,
            Error::NotInitialized => 2,
            Error::NotAuthorized => 3,
            Error::BadgeNotFound => 4,
            Error::BadgeAlreadyExists => 5,
            Error::BadgeAlreadyAwarded => 6,
            Error::InvalidInput => 7,
        }
    }
}

/// The keys of the contract's records. `Admin` and `RewardContract` live in
/// the instance storage, the others in the persistent storage.
pub enum DataKey<'a> {
    Admin,
    RewardContract,
    /// The definition of a badge.
    Badge(u64),
    /// The badges awarded to a user, oldest first.
    UserBadges(&'a Address),
}

impl<'a> DataKey<'a> {
    /// The kind under which the record of this key is written.
    pub open spec fn kind_of(self) -> Seq<char> {
        match self {
            DataKey::Admin => "Admin"@,
            DataKey::RewardContract => "RewardContract"@,
            DataKey::Badge(_) => "Badge"@,
            DataKey::UserBadges(_) => "UserBadges"@,
        }
    }

    /// The identifier of the entity that the key is about, where it has one.
    pub open spec fn id_of(self) -> Option<u64> {
        match self {
            DataKey::Badge(id) => Some(id),
            _ => None,
        }
    }

    /// The address of the subject that the key is about, where it has one.
    pub open spec fn holder(self) -> Option<&'a Address> {
        match self {
            DataKey::UserBadges(user) => Some(user),
            _ => None,
        }
    }

    /// The strkey of the subject that the key is about, where it has one.
    pub open spec fn subject_of(self) -> Option<Seq<u8>> {
        host::subject_of(self.holder())
    }

    /// The kind under which the record of this key is written.
    pub fn kind(&self) -> (kind: &'static str)
        ensures
            kind@ == self.kind_of(),
    {
        match self {
            DataKey::Admin => "Admin",
            DataKey::RewardContract => "RewardContract",
            DataKey::Badge(_) => "Badge",
            DataKey::UserBadges(_) => "UserBadges",
        }
    }

    /// The identifier of the entity that the key is about, where it has one.
    pub fn id(&self) -> (id: Option<u64>)
        ensures
            id == self.id_of(),
    {
        match self {
            DataKey::Badge(id) => Some(*id),
            _ => None,
        }
    }

    /// The subject that the key is about, where it has one.
    pub fn subject(&self) -> (subject: Option<&'a Address>)
        ensures
            subject == self.holder(),
    {
        match self {
            DataKey::UserBadges(user) => Some(*user),
            _ => None,
        }
    }
}

/// A badge as it is defined: the SHA-256 hash of its criteria, kept off the
/// ledger, and the amount paid out when it is awarded, 0 for none.
#[derive(Clone, Copy, Debug, PartialEq, Eq)]
pub struct BadgeDefinition {
    pub criteria_hash: [u8; 32],
    pub reward: i128,
}

impl BadgeDefinition {
    /// The definition as the storage holds it. A badge is never closed.
    pub open spec fn entry(self) -> Entry {
        Entry { commitment: self.criteria_hash, amount: self.reward, closed: false }
    }
}

/// Reports that a badge was defined.
pub struct BadgeDefined {
    pub badge_id: u64,
    pub criteria_hash: [u8; 32],
    pub reward: i128,
}

/// Reports that a user was evaluated against the criteria of a badge.
pub struct UserEvaluated<'a> {
    pub user: &'a Address,
    pub badge_id: u64,
}

/// Reports that a badge was awarded, with the reward that is due for it.
pub struct BadgeAwarded<'a> {
    pub user: &'a Address,
    pub badge_id: u64,
    pub reward: i128,
}

impl BadgeDefined {
    /// The event as the log holds it.
    pub open spec fn notice(self) -> Notice {
        Notice {
            topic: "badge_defined"@,
            id: self.badge_id,
            subject: None,
            commitment: Some(self.criteria_hash),
            amount: Some(self.reward),
        }
    }

    /// Appends the event to the contract's log.
    pub fn publish(&self, env: &mut Env)
        requires
            host::in_contract(*old(env)),
        ensures
            host::in_contract(*final(env)),
            host::world(*final(env)) == (World {
                published: host::world(*old(env)).published.push(self.notice()),
                ..host::world(*old(env))
            }),
            forall|k: Seq<u8>| host::authorized(*final(env), k) == host::authorized(*old(env), k),
            host::renewed(*old(env), *final(env), None, 0),
            host::same_addresses(*old(env), *final(env)),
            host::demanded(*final(env)) == host::demanded(*old(env)),
    {
        host::publish(
            env,
            "badge_defined",
            self.badge_id,
            None,
            Some(self.criteria_hash),
            Some(self.reward),
        );
    }
}

impl<'a> UserEvaluated<'a> {
    /// The event as the log holds it.
    pub open spec fn notice(self) -> Notice {
        Notice {
            topic: "user_evaluated"@,
            id: self.badge_id,
            subject: Some(address_strkey(*self.user)),
            commitment: None,
            amount: None,
        }
    }

    /// Appends the event to the contract's log.
    pub fn publish(&self, env: &mut Env)
        requires
            host::in_contract(*old(env)),
            host::of_host(*old(env), *self.user),
        ensures
            host::in_contract(*final(env)),
            host::world(*final(env)) == (World {
                published: host::world(*old(env)).published.push(self.notice()),
                ..host::world(*old(env))
            }),
            forall|k: Seq<u8>| host::authorized(*final(env), k) == host::authorized(*old(env), k),
            host::renewed(*old(env), *final(env), None, 0),
            host::same_addresses(*old(env), *final(env)),
            host::demanded(*final(env)) == host::demanded(*old(env)),
    {
        host::publish(env, "user_evaluated", self.badge_id, Some(self.user), None, None);
    }
}

impl<'a> BadgeAwarded<'a> {
    /// The event as the log holds it.
    pub open spec fn notice(self) -> Notice {
        Notice {
            topic: "badge_awarded"@,
            id: self.badge_id,
            subject: Some(address_strkey(*self.user)),
            commitment: None,
            amount: Some(self.reward),
        }
    }

    /// Appends the event to the contract's log.
    pub fn publish(&self, env: &mut Env)
        requires
            host::in_contract(*old(env)),
            host::of_host(*old(env), *self.user),
        ensures
            host::in_contract(*final(env)),
            host::world(*final(env)) == (World {
                published: host::world(*old(env)).published.push(self.notice()),
                ..host::world(*old(env))
            }),
            forall|k: Seq<u8>| host::authorized(*final(env), k) == host::authorized(*old(env), k),
            host::renewed(*old(env), *final(env), None, 0),
            host::same_addresses(*old(env), *final(env)),
            host::demanded(*final(env)) == host::demanded(*old(env)),
    {
        host::publish(
            env,
            "badge_awarded",
            self.badge_id,
            Some(self.user),
            None,
            Some(self.reward),
        );
    }
}

/// The strkey of the administrator, once the contract is initialized.
pub open spec fn admin(w: World) -> Option<Seq<u8>> {
    host::party_at(w.instance, DataKey::Admin.kind_of())
}

/// Where the definition of a badge stands.
pub open spec fn badge_slot(badge_id: u64) -> Slot {
    Slot { kind: "Badge"@, id: Some(badge_id), subject: None }
}

/// Where the badges of a user stand.
pub open spec fn user_slot(user: Seq<u8>) -> Slot {
    Slot { kind: "UserBadges"@, id: None, subject: Some(user) }
}

/// The definition of a badge, if it has one.
pub open spec fn definition(w: World, badge_id: u64) -> Option<BadgeDefinition> {
    match host::entry_at(w.persistent, badge_slot(badge_id)) {
        Some(e) => Some(BadgeDefinition { criteria_hash: e.commitment, reward: e.amount }),
        None => None,
    }
}

/// The badges that a user holds, oldest first; empty where none was awarded.
pub open spec fn badges(w: World, user: Seq<u8>) -> Seq<u64> {
    match host::list_at(w.persistent, user_slot(user)) {
        Some(l) => l,
        None => Seq::empty(),
    }
}

/// What a caller who asks for a privileged operation is told.
pub open spec fn clearance(w: World, caller: Seq<u8>) -> Result<(), Error> {
    match admin(w) {
        None => Err(Error::NotInitialized),
        Some(a) => if a == caller {
            Ok(())
        } else {
            Err(Error::NotAuthorized)
        },
    }
}

/// A call of one of the contract's operations, with its arguments.
pub enum Call {
    Init { admin: Seq<u8>, reward_contract: Seq<u8> },
    DefineBadge { admin: Seq<u8>, badge_id: u64, criteria_hash: [u8; 32], reward: i128 },
    EvaluateUser { admin: Seq<u8>, user: Seq<u8>, badge_id: u64 },
    AwardBadge { admin: Seq<u8>, user: Seq<u8>, badge_id: u64 },
}

/// What a call returns in a given world.
pub open spec fn outcome(w: World, call: Call) -> Result<(), Error> {
    match call {
        Call::Init { admin, reward_contract } => {
            if w.instance.dom().contains(DataKey::Admin.kind_of()) {
                Err(Error::AlreadyInitialized)
            } else {
                Ok(())
            }
        },
        Call::DefineBadge { admin, badge_id, criteria_hash, reward } => {
            if clearance(w, admin) is Err {
                clearance(w, admin)
            } else if reward < 0 {
                Err(Error::InvalidInput)
            } else if w.persistent.dom().contains(badge_slot(badge_id)) {
                Err(Error::BadgeAlreadyExists)
            } else {
                Ok(())
            }
        },
        Call::EvaluateUser { admin, user, badge_id } => {
            if clearance(w, admin) is Err {
                clearance(w, admin)
            } else if definition(w, badge_id) is None {
                Err(Error::BadgeNotFound)
            } else {
                Ok(())
            }
        },
        Call::AwardBadge { admin, user, badge_id } => {
            if clearance(w, admin) is Err {
                clearance(w, admin)
            } else if definition(w, badge_id) is None {
                Err(Error::BadgeNotFound)
            } else if badges(w, user).contains(badge_id) {
                Err(Error::BadgeAlreadyAwarded)
            } else {
                Ok(())
            }
        },
    }
}

/// The world that a call leaves behind. A call that fails leaves the world
/// as it found it.
pub open spec fn after(w: World, call: Call) -> World {
    if outcome(w, call) is Err {
        w
    } else {
        match call {
            Call::Init { admin, reward_contract } => World {
                instance: w.instance.insert(DataKey::Admin.kind_of(), Stored::Party(admin)).insert(
                    DataKey::RewardContract.kind_of(),
                    Stored::Party(reward_contract),
                ),
                ..w
            },
            Call::DefineBadge { admin, badge_id, criteria_hash, reward } => World {
                persistent: w.persistent.insert(
                    badge_slot(badge_id),
                    Stored::Entry(BadgeDefinition { criteria_hash, reward }.entry()),
                ),
                published: w.published.push(
                    BadgeDefined { badge_id, criteria_hash, reward }.notice(),
                ),
                ..w
            },
            Call::EvaluateUser { admin, user, badge_id } => World {
                published: w.published.push(
                    Notice {
                        topic: "user_evaluated"@,
                        id: badge_id,
                        subject: Some(user),
                        commitment: None,
                        amount: None,
                    },
                ),
                ..w
            },
            Call::AwardBadge { admin, user, badge_id } => World {
                persistent: w.persistent.insert(
                    user_slot(user),
                    Stored::List(badges(w, user).push(badge_id)),
                ),
                published: w.published.push(
                    Notice {
                        topic: "badge_awarded"@,
                        id: badge_id,
                        subject: Some(user),
                        commitment: None,
                        amount: Some(definition(w, badge_id)->Some_0.reward),
                    },
                ),
                ..w
            },
        }
    }
}

/// The record that a call writes, if it writes one.
pub open spec fn written(w: World, call: Call) -> Option<Slot> {
    if outcome(w, call) is Err {
        None
    } else {
        match call {
            Call::Init { .. } => None,
            Call::DefineBadge { badge_id, .. } => Some(badge_slot(badge_id)),
            Call::EvaluateUser { .. } => None,
            Call::AwardBadge { user, .. } => Some(user_slot(user)),
        }
    }
}

/// The address whose authorization a call demands of the host, if it
/// demands one. Initialization asks the administrator to be, once it has
/// found the contract without one. Every other call asks its caller as soon
/// as the contract has an administrator, before it looks at anything else.
pub open spec fn asked(w: World, call: Call) -> Option<Seq<u8>> {
    match call {
        Call::Init { admin, .. } => if outcome(w, call) is Ok {
            Some(admin)
        } else {
            None
        },
        Call::DefineBadge { admin, .. } => if self::admin(w) is Some {
            Some(admin)
        } else {
            None
        },
        Call::EvaluateUser { admin, .. } => if self::admin(w) is Some {
            Some(admin)
        } else {
            None
        },
        Call::AwardBadge { admin, .. } => if self::admin(w) is Some {
            Some(admin)
        } else {
            None
        },
    }
}

/// Whether a call may be made: the host is executing the contract, and the
/// address whose authorization the call demands has given it. The host
/// aborts an invocation that demands an authorization it was not given.
/// Beside this every operation asks that the addresses it is handed are of
/// the host.
pub open spec fn admitted(env: Env, call: Call) -> bool {
    &&& host::in_contract(env)
    &&& asked(host::world(env), call) matches Some(who) ==> host::authorized(env, who)
}

/// Fails with `NotInitialized` until the contract has an administrator.
pub fn require_initialized(env: &Env) -> (r: Result<(), Error>)
    requires
        host::in_contract(*env),
    ensures
        r == if host::world(*env).instance.dom().contains(DataKey::Admin.kind_of()) {
            Ok::<(), Error>(())
        } else {
            Err(Error::NotInitialized)
        },
{
    if !host::instance_has(env, DataKey::Admin.kind()) {
        return Err(Error::NotInitialized);
    }
    Ok(())
}

/// Checks that `caller` is the administrator and has authorized the
/// invocation. Where the contract has an administrator the caller's
/// authorization is demanded, before the two are compared. Storage and
/// events are untouched.
pub fn require_admin(env: &mut Env, caller: &Address) -> (r: Result<(), Error>)
    requires
        host::in_contract(*old(env)),
        host::of_host(*old(env), *caller),
        admin(host::world(*old(env))) is Some ==> host::authorized(
            *old(env),
            address_strkey(*caller),
        ),
    ensures
        host::in_contract(*final(env)),
        host::world(*final(env)) == host::world(*old(env)),
        host::renewed(*old(env), *final(env), None, 0),
        host::same_addresses(*old(env), *final(env)),
        host::demanded(*final(env)) == host::demands_after(
            *old(env),
            if admin(host::world(*old(env))) is Some {
                Some(address_strkey(*caller))
            } else {
                None
            },
        ),
        r == clearance(host::world(*old(env)), address_strkey(*caller)),
{
    let stored = match host::instance_get_address(env, DataKey::Admin.kind()) {
        Some(a) => a,
        None => {
            return Err(Error::NotInitialized);
        },
    };
    host::require_auth(env, caller);
    if !host::same_address(caller, &stored) {
        return Err(Error::NotAuthorized);
    }
    Ok(())
}

/// The definition of the badge, or `BadgeNotFound`.
pub fn require_badge_exists(env: &Env, badge_id: u64) -> (r: Result<BadgeDefinition, Error>)
    requires
        host::in_contract(*env),
    ensures
        r == match definition(host::world(*env), badge_id) {
            Some(d) => Ok::<BadgeDefinition, Error>(d),
            None => Err(Error::BadgeNotFound),
        },
{
    let key = DataKey::Badge(badge_id);
    match host::persistent_get_entry(env, key.kind(), key.id(), key.subject()) {
        Some(e) => Ok(BadgeDefinition { criteria_hash: e.commitment, reward: e.amount }),
        None => Err(Error::BadgeNotFound),
    }
}

/// Whether the list holds the badge.
pub fn contains_badge(held: &Vec<u64>, badge_id: u64) -> (found: bool)
    ensures
        found == held@.contains(badge_id),
{
    let mut i: usize = 0;
    while i < held.len()
        invariant
            i <= held.len(),
            forall|j: int| 0 <= j < i ==> held@[j] != badge_id,
        decreases held.len() - i,
    {
        if held[i] == badge_id {
            return true;
        }
        i += 1;
    }
    false
}

/// The badge contract.
pub struct AchievementBadge;

impl AchievementBadge {
    /// Sets the administrator and the reward contract. Succeeds once; every
    /// later call fails with `AlreadyInitialized`.
    pub fn init(env: &mut Env, admin: &Address, reward_contract: &Address) -> (r: Result<(), Error>)
        requires
            host::of_host(*old(env), *admin),
            host::of_host(*old(env), *reward_contract),
            admitted(
                *old(env),
                Call::Init {
                    admin: address_strkey(*admin),
                    reward_contract: address_strkey(*reward_contract),
                },
            ),
        ensures
            ({
                let call = Call::Init {
                    admin: address_strkey(*admin),
                    reward_contract: address_strkey(*reward_contract),
                };
                &&& host::in_contract(*final(env))
                &&& r == outcome(host::world(*old(env)), call)
                &&& host::world(*final(env)) == after(host::world(*old(env)), call)
                &&& host::renewed(
                    *old(env),
                    *final(env),
                    written(host::world(*old(env)), call),
                    PERSISTENT_BUMP_LEDGERS,
                )
                &&& host::same_addresses(*old(env), *final(env))
                &&& host::demanded(*final(env)) == host::demands_after(
                    *old(env),
                    asked(host::world(*old(env)), call),
                )
            }),
    {
        if host::instance_has(env, DataKey::Admin.kind()) {
            return Err(Error::AlreadyInitialized);
        }
        host::require_auth(env, admin);
        host::instance_set_address(env, DataKey::Admin.kind(), admin);
        host::instance_set_address(env, DataKey::RewardContract.kind(), reward_contract);
        Ok(())
    }

    /// Defines a badge. Only the administrator may; the reward must not be
    /// negative; a badge is defined once.
    pub fn define_badge(
        env: &mut Env,
        admin: &Address,
        badge_id: u64,
        criteria_hash: [u8; 32],
        reward: i128,
    ) -> (r: Result<(), Error>)
        requires
            host::of_host(*old(env), *admin),
            admitted(
                *old(env),
                Call::DefineBadge {
                    admin: address_strkey(*admin),
                    badge_id,
                    criteria_hash,
                    reward,
                },
            ),
        ensures
            ({
                let call = Call::DefineBadge {
                    admin: address_strkey(*admin),
                    badge_id,
                    criteria_hash,
                    reward,
                };
                &&& host::in_contract(*final(env))
                &&& r == outcome(host::world(*old(env)), call)
                &&& host::world(*final(env)) == after(host::world(*old(env)), call)
                &&& host::renewed(
                    *old(env),
                    *final(env),
                    written(host::world(*old(env)), call),
                    PERSISTENT_BUMP_LEDGERS,
                )
                &&& host::same_addresses(*old(env), *final(env))
                &&& host::demanded(*final(env)) == host::demands_after(
                    *old(env),
                    asked(host::world(*old(env)), call),
                )
            }),
    {
        require_initialized(env)?;
        require_admin(env, admin)?;
        if reward < 0 {
            return Err(Error::InvalidInput);
        }
        let key = DataKey::Badge(badge_id);
        if host::persistent_has(env, key.kind(), key.id(), key.subject()) {
            return Err(Error::BadgeAlreadyExists);
        }
        let definition = BadgeDefinition { criteria_hash, reward };
        host::write_entry(
            env,
            key.kind(),
            key.id(),
            key.subject(),
            Entry {
                commitment: definition.criteria_hash,
                amount: definition.reward,
                closed: false,
            },
            PERSISTENT_BUMP_LEDGERS,
        );
        BadgeDefined { badge_id, criteria_hash, reward }.publish(env);
        Ok(())
    }

    /// Records that the administrator has evaluated a user against a badge.
    /// The badge must be defined. Nothing is stored: one event is published.
    pub fn evaluate_user(
        env: &mut Env,
        admin: &Address,
        user: &Address,
        badge_id: u64,
    ) -> (r: Result<(), Error>)
        requires
            host::of_host(*old(env), *admin),
            host::of_host(*old(env), *user),
            admitted(
                *old(env),
                Call::EvaluateUser {
                    admin: address_strkey(*admin),
                    user: address_strkey(*user),
                    badge_id,
                },
            ),
        ensures
            ({
                let call = Call::EvaluateUser {
                    admin: address_strkey(*admin),
                    user: address_strkey(*user),
                    badge_id,
                };
                &&& host::in_contract(*final(env))
                &&& r == outcome(host::world(*old(env)), call)
                &&& host::world(*final(env)) == after(host::world(*old(env)), call)
                &&& host::renewed(
                    *old(env),
                    *final(env),
                    written(host::world(*old(env)), call),
                    PERSISTENT_BUMP_LEDGERS,
                )
                &&& host::same_addresses(*old(env), *final(env))
                &&& host::demanded(*final(env)) == host::demands_after(
                    *old(env),
                    asked(host::world(*old(env)), call),
                )
            }),
    {
        require_initialized(env)?;
        require_admin(env, admin)?;
        require_badge_exists(env, badge_id)?;
        UserEvaluated { user, badge_id }.publish(env);
        Ok(())
    }

    /// Awards a badge to a user. The badge must be defined, and the user
    /// must not hold it yet. The badge goes to the end of the user's list,
    /// and the event carries the reward of the badge.
    pub fn award_badge(
        env: &mut Env,
        admin: &Address,
        user: &Address,
        badge_id: u64,
    ) -> (r: Result<(), Error>)
        requires
            host::of_host(*old(env), *admin),
            host::of_host(*old(env), *user),
            admitted(
                *old(env),
                Call::AwardBadge {
                    admin: address_strkey(*admin),
                    user: address_strkey(*user),
                    badge_id,
                },
            ),
        ensures
            ({
                let call = Call::AwardBadge {
                    admin: address_strkey(*admin),
                    user: address_strkey(*user),
                    badge_id,
                };
                &&& host::in_contract(*final(env))
                &&& r == outcome(host::world(*old(env)), call)
                &&& host::world(*final(env)) == after(host::world(*old(env)), call)
                &&& host::renewed(
                    *old(env),
                    *final(env),
                    written(host::world(*old(env)), call),
                    PERSISTENT_BUMP_LEDGERS,
                )
                &&& host::same_addresses(*old(env), *final(env))
                &&& host::demanded(*final(env)) == host::demands_after(
                    *old(env),
                    asked(host::world(*old(env)), call),
                )
            }),
    {
        require_initialized(env)?;
        require_admin(env, admin)?;
        let badge = require_badge_exists(env, badge_id)?;
        let mut held = Self::badges_of(env, user);
        if contains_badge(&held, badge_id) {
            return Err(Error::BadgeAlreadyAwarded);
        }
        held.push(badge_id);
        let key = DataKey::UserBadges(user);
        host::write_list(env, key.kind(), key.id(), key.subject(), &held, PERSISTENT_BUMP_LEDGERS);
        BadgeAwarded { user, badge_id, reward: badge.reward }.publish(env);
        Ok(())
    }

    /// The badges that a user holds, oldest first. A user who was never
    /// awarded a badge holds none, whether or not the contract is
    /// initialized.
    pub fn badges_of(env: &Env, user: &Address) -> (held: Vec<u64>)
        requires
            host::in_contract(*env),
            host::of_host(*env, *user),
        ensures
            held@ == badges(host::world(*env), address_strkey(*user)),
    {
        let key = DataKey::UserBadges(user);
        match host::persistent_get_list(env, key.kind(), key.id(), key.subject()) {
            Some(l) => l,
            None => Vec::new(),
        }
    }
}

} // verus!
