//! The boundary to the Soroban host.
//!
//! The host keeps three things on behalf of a running contract: its instance
//! entries, its persistent entries and the log of the events it has published.
//! This module names them as mathematical values and gives each host call that
//! the contracts use a small function whose contract is stated over those
//! values. The bodies of these functions are not verified: their contracts
//! record what the host is relied upon to do.
//!
//! Keys are written to the host as the triple of a kind, an optional
//! identifier and an optional address. Values are told apart by their shape
//! when they are read back. A read takes the raw value from the host and
//! converts it piece by piece, each conversion answering with an error where
//! the piece is of another shape, so that a record of another shape is
//! reported as absent.
//!
//! An address is a handle into the host that made it, and means nothing to
//! another host. Every function that hands an address to the host therefore
//! asks that the address is of that host, see [`of_host`].
//!
//! Two things are taken for granted throughout, as a program takes for
//! granted that the machine has memory for it. The host has the budget to
//! carry the call out, and the footprint of the transaction covers the
//! entries that the call touches. A host that lacks either aborts the
//! invocation.

use soroban_sdk::{BytesN, TryFromVal, Val};
use vstd::prelude::*;

verus! {

/// The handle to the host, `soroban_sdk::Env`.
#[verifier::external_type_specification]
#[verifier::external_body]
pub struct ExEnv(soroban_sdk::Env);

/// An account or contract identifier, `soroban_sdk::Address`.
#[verifier::external_type_specification]
#[verifier::external_body]
pub struct ExAddress(soroban_sdk::Address);

/// The position of a persistent record: its kind, the identifier of the
/// entity it belongs to, and the subject it is about, given by its strkey.
pub struct Slot {
    pub kind: Seq<char>,
    pub id: Option<u64>,
    pub subject: Option<Seq<u8>>,
}

/// The record of an entity: a 32-byte commitment, an amount, and whether the
/// entity has been closed.
#[derive(Clone, Copy, Debug)]
pub struct Entry {
    pub commitment: [u8; 32],
    pub amount: i128,
    pub closed: bool,
}

/// What the host holds under a key, told apart by shape.
pub enum Stored {
    /// An address, given by its strkey.
    Party(Seq<u8>),
    /// The record of an entity.
    Entry(Entry),
    /// A list of identifiers, oldest first.
    List(Seq<u64>),
    /// A presence marker.
    Flag(bool),
    /// A number.
    Number(u64),
    /// A value of any other shape.
    Other,
}

/// A published event: the operation it reports, the entity, the subject where
/// there is one, and the values it carries.
pub struct Notice {
    pub topic: Seq<char>,
    pub id: u64,
    pub subject: Option<Seq<u8>>,
    pub commitment: Option<[u8; 32]>,
    pub amount: Option<i128>,
}

/// Everything the contracts can observe or change on the host.
pub struct World {
    pub instance: Map<Seq<char>, Stored>,
    pub persistent: Map<Slot, Stored>,
    pub published: Seq<Notice>,
}

/// The strkey of an address, as `Address::to_string` gives it. Two addresses
/// have the same strkey exactly when they name the same account or contract.
pub uninterp spec fn address_strkey(a: soroban_sdk::Address) -> Seq<u8>;

/// The instance entries of the running contract, by kind.
pub uninterp spec fn instance_entries(env: soroban_sdk::Env) -> Map<Seq<char>, Stored>;

/// The persistent entries of the running contract.
pub uninterp spec fn persistent_entries(env: soroban_sdk::Env) -> Map<Slot, Stored>;

/// The events that the running contract has published, oldest first.
pub uninterp spec fn published(env: soroban_sdk::Env) -> Seq<Notice>;

/// For each persistent entry of the running contract, the number of ledgers
/// after the current one for which the host keeps it alive.
pub uninterp spec fn lifetime(env: soroban_sdk::Env) -> Map<Slot, nat>;

/// The longest lifetime that the host grants to an entry, as
/// `Storage::max_ttl` gives it.
pub uninterp spec fn longest_lifetime(env: soroban_sdk::Env) -> nat;

/// The lifetime that the host gives a persistent entry when it is first
/// written.
pub uninterp spec fn initial_lifetime(env: soroban_sdk::Env) -> nat;

/// The strkeys of the addresses whose authorization has been demanded of the
/// host in the running invocation, oldest first.
pub uninterp spec fn demanded(env: soroban_sdk::Env) -> Seq<Seq<u8>>;

/// Whether the address is of this host: its handle was made by the host
/// that `env` stands for, and names an address there.
pub uninterp spec fn of_host(env: soroban_sdk::Env, a: soroban_sdk::Address) -> bool;

/// Whether the host is executing a contract, so that its storage, its event
/// log and its authorization checks can be reached.
pub uninterp spec fn in_contract(env: soroban_sdk::Env) -> bool;

/// Whether the address with this strkey has authorized the invocation that
/// the host is executing.
pub uninterp spec fn authorized(env: soroban_sdk::Env, who: Seq<u8>) -> bool;

/// The world as the host has it.
pub open spec fn world(env: soroban_sdk::Env) -> World {
    World {
        instance: instance_entries(env),
        persistent: persistent_entries(env),
        published: published(env),
    }
}

/// The strkey of the subject, where there is one.
pub open spec fn subject_of(who: Option<&soroban_sdk::Address>) -> Option<Seq<u8>> {
    match who {
        Some(a) => Some(address_strkey(*a)),
        None => None,
    }
}

/// Whether the subject, where there is one, is of the host.
pub open spec fn subject_of_host(
    env: soroban_sdk::Env,
    who: Option<&soroban_sdk::Address>,
) -> bool {
    match who {
        Some(a) => of_host(env, *a),
        None => true,
    }
}

/// Whether the same addresses are of the host after a call as before it.
pub open spec fn same_addresses(pre: soroban_sdk::Env, post: soroban_sdk::Env) -> bool {
    forall|a: soroban_sdk::Address| #[trigger] of_host(post, a) == of_host(pre, a)
}

/// The position that the three parts of a key name.
pub open spec fn slot(kind: &str, id: Option<u64>, who: Option<&soroban_sdk::Address>) -> Slot {
    Slot { kind: kind@, id, subject: subject_of(who) }
}

/// The lifetime with which a record stands before it is renewed: its own
/// where it is there already, that of a new entry where it is not.
pub open spec fn standing(env: soroban_sdk::Env, at: Slot) -> nat {
    if persistent_entries(env).dom().contains(at) {
        lifetime(env)[at]
    } else {
        initial_lifetime(env)
    }
}

/// How the lifetimes of the persistent entries stand after an operation that
/// wrote the record at `written`, or wrote none: that record was renewed to
/// `ledgers` ledgers, every other lifetime is as it was.
pub open spec fn renewed(
    pre: soroban_sdk::Env,
    post: soroban_sdk::Env,
    written: Option<Slot>,
    ledgers: u32,
) -> bool {
    &&& longest_lifetime(post) == longest_lifetime(pre)
    &&& initial_lifetime(post) == initial_lifetime(pre)
    &&& lifetime(post) == match written {
        None => lifetime(pre),
        Some(s) => lifetime(pre).insert(
            s,
            extended(standing(pre, s), ledgers, longest_lifetime(pre)),
        ),
    }
}

/// The demands for authorization after an operation that asked for that of
/// `asked`, or for nobody's.
pub open spec fn demands_after(pre: soroban_sdk::Env, asked: Option<Seq<u8>>) -> Seq<Seq<u8>> {
    match asked {
        Some(who) => demanded(pre).push(who),
        None => demanded(pre),
    }
}

/// The lifetime of an entry after the host was asked to let it live for
/// `ledgers` ledgers, where `current` is its lifetime before and `longest` the
/// longest that the host grants.
pub open spec fn extended(current: nat, ledgers: u32, longest: nat) -> nat {
    let granted = if ledgers <= longest {
        ledgers as nat
    } else {
        longest
    };
    if current >= granted {
        current
    } else {
        granted
    }
}

/// The entity record under a key, if the key holds one.
pub open spec fn entry_at(entries: Map<Slot, Stored>, at: Slot) -> Option<Entry> {
    if entries.dom().contains(at) {
        match entries[at] {
            Stored::Entry(e) => Some(e),
            _ => None,
        }
    } else {
        None
    }
}

/// The list under a key, if the key holds one.
pub open spec fn list_at(entries: Map<Slot, Stored>, at: Slot) -> Option<Seq<u64>> {
    if entries.dom().contains(at) {
        match entries[at] {
            Stored::List(l) => Some(l),
            _ => None,
        }
    } else {
        None
    }
}

/// The number under a key, if the key holds one.
pub open spec fn number_at(entries: Map<Slot, Stored>, at: Slot) -> Option<u64> {
    if entries.dom().contains(at) {
        match entries[at] {
            Stored::Number(n) => Some(n),
            _ => None,
        }
    } else {
        None
    }
}

/// The strkey of the address under a kind, if the kind holds an address.
pub open spec fn party_at(entries: Map<Seq<char>, Stored>, kind: Seq<char>) -> Option<Seq<u8>> {
    if entries.dom().contains(kind) {
        match entries[kind] {
            Stored::Party(p) => Some(p),
            _ => None,
        }
    } else {
        None
    }
}

/// `Address::eq`: two addresses are equal exactly when they name the same
/// account or contract, that is when their strkeys agree.
#[verifier::external_body]
pub(crate) fn same_address(a: &soroban_sdk::Address, b: &soroban_sdk::Address) -> (same: bool)
    ensures
        same == (address_strkey(*a) == address_strkey(*b)),
{
    a == b
}

/// `Address::require_auth`: demands the authorization of the address for the
/// running invocation. It returns when the address has given it, which the
/// precondition asks; the host aborts the invocation otherwise. The call goes
/// to the host of the address, which the precondition asks to be this one.
/// The demand is on record afterwards; storage and events are untouched.
/// Nothing is claimed of the authorizations that remain.
#[verifier::external_body]
pub(crate) fn require_auth(env: &mut soroban_sdk::Env, who: &soroban_sdk::Address)
    requires
        in_contract(*old(env)),
        of_host(*old(env), *who),
        authorized(*old(env), address_strkey(*who)),
    ensures
        in_contract(*final(env)),
        instance_entries(*final(env)) == instance_entries(*old(env)),
        persistent_entries(*final(env)) == persistent_entries(*old(env)),
        published(*final(env)) == published(*old(env)),
        lifetime(*final(env)) == lifetime(*old(env)),
        longest_lifetime(*final(env)) == longest_lifetime(*old(env)),
        forall|a: soroban_sdk::Address| of_host(*final(env), a) == of_host(*old(env), a),
        initial_lifetime(*final(env)) == initial_lifetime(*old(env)),
        demanded(*final(env)) == demanded(*old(env)).push(address_strkey(*who)),
{
    who.require_auth();
}

/// `Instance::has`: whether the instance storage holds a value of any shape
/// under the kind.
#[verifier::external_body]
pub(crate) fn instance_has(env: &soroban_sdk::Env, kind: &str) -> (present: bool)
    requires
        in_contract(*env),
    ensures
        present == instance_entries(*env).dom().contains(kind@),
{
    env.storage().instance().has(&(soroban_sdk::String::from_str(env, kind),))
}

/// `Instance::get`: the address held under the kind; `None` when the kind is
/// absent or holds a value that is no address. An address that the host hands
/// out is of that host.
#[verifier::external_body]
pub(crate) fn instance_get_address(
    env: &soroban_sdk::Env,
    kind: &str,
) -> (found: Option<soroban_sdk::Address>)
    requires
        in_contract(*env),
    ensures
        match found {
            Some(a) => party_at(instance_entries(*env), kind@) == Some(address_strkey(a)),
            None => party_at(instance_entries(*env), kind@) is None,
        },
        found is Some ==> of_host(*env, found->Some_0),
{
    let key = (soroban_sdk::String::from_str(env, kind),);
    let raw = env.storage().instance().get::<_, soroban_sdk::Val>(&key);
    raw.and_then(|v| soroban_sdk::Address::try_from_val(env, &v).ok())
}

/// `Instance::set`: puts the address, which must be of this host, under the
/// kind, replacing what was there; every other entry, the persistent storage,
/// the event log and the authorizations stay as they were.
#[verifier::external_body]
pub(crate) fn instance_set_address(
    env: &mut soroban_sdk::Env,
    kind: &str,
    who: &soroban_sdk::Address,
)
    requires
        in_contract(*old(env)),
        of_host(*old(env), *who),
    ensures
        in_contract(*final(env)),
        instance_entries(*final(env)) == instance_entries(*old(env)).insert(
            kind@,
            Stored::Party(address_strkey(*who)),
        ),
        persistent_entries(*final(env)) == persistent_entries(*old(env)),
        published(*final(env)) == published(*old(env)),
        forall|k: Seq<u8>| authorized(*final(env), k) == authorized(*old(env), k),
        lifetime(*final(env)) == lifetime(*old(env)),
        longest_lifetime(*final(env)) == longest_lifetime(*old(env)),
        forall|a: soroban_sdk::Address| of_host(*final(env), a) == of_host(*old(env), a),
        initial_lifetime(*final(env)) == initial_lifetime(*old(env)),
        demanded(*final(env)) == demanded(*old(env)),
{
    env.storage().instance().set(&(soroban_sdk::String::from_str(env, kind),), who);
}

/// `Persistent::has`: whether the persistent storage holds a value of any
/// shape under the key. An address in the key must be of this host, here as
/// in every function below that takes a key.
#[verifier::external_body]
pub(crate) fn persistent_has(
    env: &soroban_sdk::Env,
    kind: &str,
    id: Option<u64>,
    who: Option<&soroban_sdk::Address>,
) -> (present: bool)
    requires
        in_contract(*env),
        subject_of_host(*env, who),
    ensures
        present == persistent_entries(*env).dom().contains(slot(kind, id, who)),
{
    let key = (soroban_sdk::String::from_str(env, kind), id, who.cloned());
    env.storage().persistent().has(&key)
}

/// `Persistent::get`: the entity record held under the key; `None` when the
/// key is absent or holds a value of another shape. The value is taken as a
/// vector of raw values and must have three of them: the 32 bytes, the
/// amount and the flag.
#[verifier::external_body]
pub(crate) fn persistent_get_entry(
    env: &soroban_sdk::Env,
    kind: &str,
    id: Option<u64>,
    who: Option<&soroban_sdk::Address>,
) -> (found: Option<Entry>)
    requires
        in_contract(*env),
        subject_of_host(*env, who),
    ensures
        found == entry_at(persistent_entries(*env), slot(kind, id, who)),
{
    let key = (soroban_sdk::String::from_str(env, kind), id, who.cloned());
    let raw = env.storage().persistent().get::<_, Val>(&key)?;
    let items: Vec<Val> = soroban_sdk::Vec::<Val>::try_from_val(env, &raw).ok()?.iter().collect();
    let [hash, amount, closed] = <[Val; 3]>::try_from(items).ok()?;
    Some(Entry {
        commitment: BytesN::<32>::try_from_val(env, &hash).ok()?.to_array(),
        amount: i128::try_from_val(env, &amount).ok()?,
        closed: bool::try_from_val(env, &closed).ok()?,
    })
}

/// `Persistent::get`: the list held under the key; `None` when the key is
/// absent or holds a value of another shape.
#[verifier::external_body]
pub(crate) fn persistent_get_list(
    env: &soroban_sdk::Env,
    kind: &str,
    id: Option<u64>,
    who: Option<&soroban_sdk::Address>,
) -> (found: Option<Vec<u64>>)
    requires
        in_contract(*env),
        subject_of_host(*env, who),
    ensures
        match found {
            Some(l) => Some(l@) == list_at(persistent_entries(*env), slot(kind, id, who)),
            None => list_at(persistent_entries(*env), slot(kind, id, who)) is None,
        },
{
    let key = (soroban_sdk::String::from_str(env, kind), id, who.cloned());
    let raw = env.storage().persistent().get::<_, soroban_sdk::Val>(&key)?;
    let list = soroban_sdk::Vec::<u64>::try_from_val(env, &raw).ok()?;
    list.try_iter().collect::<Result<Vec<u64>, _>>().ok()
}

/// `Persistent::get`: the number held under the key; `None` when the key is
/// absent or holds a value of another shape.
#[verifier::external_body]
pub(crate) fn persistent_get_number(
    env: &soroban_sdk::Env,
    kind: &str,
    id: Option<u64>,
    who: Option<&soroban_sdk::Address>,
) -> (found: Option<u64>)
    requires
        in_contract(*env),
        subject_of_host(*env, who),
    ensures
        found == number_at(persistent_entries(*env), slot(kind, id, who)),
{
    let key = (soroban_sdk::String::from_str(env, kind), id, who.cloned());
    let raw = env.storage().persistent().get::<_, soroban_sdk::Val>(&key)?;
    u64::try_from_val(env, &raw).ok()
}

/// `Persistent::set`: puts the entity record under the key, replacing what
/// was there; every other entry and its lifetime, the instance storage, the
/// event log and the authorizations stay as they were. An entry that was
/// there keeps its lifetime; a new one starts with the lifetime that the host
/// gives to new entries.
#[verifier::external_body]
pub(crate) fn persistent_set_entry(
    env: &mut soroban_sdk::Env,
    kind: &str,
    id: Option<u64>,
    who: Option<&soroban_sdk::Address>,
    entry: Entry,
)
    requires
        in_contract(*old(env)),
        subject_of_host(*old(env), who),
    ensures
        in_contract(*final(env)),
        persistent_entries(*final(env)) == persistent_entries(*old(env)).insert(
            slot(kind, id, who),
            Stored::Entry(entry),
        ),
        instance_entries(*final(env)) == instance_entries(*old(env)),
        published(*final(env)) == published(*old(env)),
        forall|k: Seq<u8>| authorized(*final(env), k) == authorized(*old(env), k),
        lifetime(*final(env)) == lifetime(*old(env)).insert(
            slot(kind, id, who),
            standing(*old(env), slot(kind, id, who)),
        ),
        longest_lifetime(*final(env)) == longest_lifetime(*old(env)),
        forall|a: soroban_sdk::Address| of_host(*final(env), a) == of_host(*old(env), a),
        initial_lifetime(*final(env)) == initial_lifetime(*old(env)),
        demanded(*final(env)) == demanded(*old(env)),
{
    let key = (soroban_sdk::String::from_str(env, kind), id, who.cloned());
    let hash = soroban_sdk::BytesN::from_array(env, &entry.commitment);
    env.storage().persistent().set(&key, &(hash, entry.amount, entry.closed));
}

/// `Persistent::set`: puts the list under the key, replacing what was
/// there, with the lifetime as for an entity record; everything else stays as
/// it was.
#[verifier::external_body]
pub(crate) fn persistent_set_list(
    env: &mut soroban_sdk::Env,
    kind: &str,
    id: Option<u64>,
    who: Option<&soroban_sdk::Address>,
    list: &Vec<u64>,
)
    requires
        in_contract(*old(env)),
        subject_of_host(*old(env), who),
    ensures
        in_contract(*final(env)),
        persistent_entries(*final(env)) == persistent_entries(*old(env)).insert(
            slot(kind, id, who),
            Stored::List(list@),
        ),
        instance_entries(*final(env)) == instance_entries(*old(env)),
        published(*final(env)) == published(*old(env)),
        forall|k: Seq<u8>| authorized(*final(env), k) == authorized(*old(env), k),
        lifetime(*final(env)) == lifetime(*old(env)).insert(
            slot(kind, id, who),
            standing(*old(env), slot(kind, id, who)),
        ),
        longest_lifetime(*final(env)) == longest_lifetime(*old(env)),
        forall|a: soroban_sdk::Address| of_host(*final(env), a) == of_host(*old(env), a),
        initial_lifetime(*final(env)) == initial_lifetime(*old(env)),
        demanded(*final(env)) == demanded(*old(env)),
{
    let key = (soroban_sdk::String::from_str(env, kind), id, who.cloned());
    env.storage().persistent().set(&key, &soroban_sdk::Vec::from_slice(env, list.as_slice()));
}

/// `Persistent::set`: puts the marker under the key, replacing what was
/// there, with the lifetime as for an entity record; everything else stays as
/// it was.
#[verifier::external_body]
pub(crate) fn persistent_set_flag(
    env: &mut soroban_sdk::Env,
    kind: &str,
    id: Option<u64>,
    who: Option<&soroban_sdk::Address>,
    flag: bool,
)
    requires
        in_contract(*old(env)),
        subject_of_host(*old(env), who),
    ensures
        in_contract(*final(env)),
        persistent_entries(*final(env)) == persistent_entries(*old(env)).insert(
            slot(kind, id, who),
            Stored::Flag(flag),
        ),
        instance_entries(*final(env)) == instance_entries(*old(env)),
        published(*final(env)) == published(*old(env)),
        forall|k: Seq<u8>| authorized(*final(env), k) == authorized(*old(env), k),
        lifetime(*final(env)) == lifetime(*old(env)).insert(
            slot(kind, id, who),
            standing(*old(env), slot(kind, id, who)),
        ),
        longest_lifetime(*final(env)) == longest_lifetime(*old(env)),
        forall|a: soroban_sdk::Address| of_host(*final(env), a) == of_host(*old(env), a),
        initial_lifetime(*final(env)) == initial_lifetime(*old(env)),
        demanded(*final(env)) == demanded(*old(env)),
{
    let key = (soroban_sdk::String::from_str(env, kind), id, who.cloned());
    env.storage().persistent().set(&key, &flag);
}

/// `Persistent::set`: puts the number under the key, replacing what was
/// there, with the lifetime as for an entity record; everything else stays as
/// it was.
#[verifier::external_body]
pub(crate) fn persistent_set_number(
    env: &mut soroban_sdk::Env,
    kind: &str,
    id: Option<u64>,
    who: Option<&soroban_sdk::Address>,
    number: u64,
)
    requires
        in_contract(*old(env)),
        subject_of_host(*old(env), who),
    ensures
        in_contract(*final(env)),
        persistent_entries(*final(env)) == persistent_entries(*old(env)).insert(
            slot(kind, id, who),
            Stored::Number(number),
        ),
        instance_entries(*final(env)) == instance_entries(*old(env)),
        published(*final(env)) == published(*old(env)),
        forall|k: Seq<u8>| authorized(*final(env), k) == authorized(*old(env), k),
        lifetime(*final(env)) == lifetime(*old(env)).insert(
            slot(kind, id, who),
            standing(*old(env), slot(kind, id, who)),
        ),
        longest_lifetime(*final(env)) == longest_lifetime(*old(env)),
        forall|a: soroban_sdk::Address| of_host(*final(env), a) == of_host(*old(env), a),
        initial_lifetime(*final(env)) == initial_lifetime(*old(env)),
        demanded(*final(env)) == demanded(*old(env)),
{
    let key = (soroban_sdk::String::from_str(env, kind), id, who.cloned());
    env.storage().persistent().set(&key, &number);
}

/// `Persistent::extend_ttl`, with `ledgers` both as the threshold and as the
/// lifetime asked for: where the entry under the key would live for `ledgers`
/// ledgers or fewer, the host lets it live for `ledgers` ledgers, or for the
/// longest lifetime it grants if that is shorter, and never shortens a
/// lifetime. The key must be present. What is stored does not change.
#[verifier::external_body]
pub(crate) fn persistent_extend_ttl(
    env: &mut soroban_sdk::Env,
    kind: &str,
    id: Option<u64>,
    who: Option<&soroban_sdk::Address>,
    ledgers: u32,
)
    requires
        in_contract(*old(env)),
        subject_of_host(*old(env), who),
        persistent_entries(*old(env)).dom().contains(slot(kind, id, who)),
        lifetime(*old(env)).dom().contains(slot(kind, id, who)),
    ensures
        in_contract(*final(env)),
        persistent_entries(*final(env)) == persistent_entries(*old(env)),
        instance_entries(*final(env)) == instance_entries(*old(env)),
        published(*final(env)) == published(*old(env)),
        forall|k: Seq<u8>| authorized(*final(env), k) == authorized(*old(env), k),
        lifetime(*final(env)) == lifetime(*old(env)).insert(
            slot(kind, id, who),
            extended(
                lifetime(*old(env))[slot(kind, id, who)],
                ledgers,
                longest_lifetime(*old(env)),
            ),
        ),
        longest_lifetime(*final(env)) == longest_lifetime(*old(env)),
        forall|a: soroban_sdk::Address| of_host(*final(env), a) == of_host(*old(env), a),
        initial_lifetime(*final(env)) == initial_lifetime(*old(env)),
        demanded(*final(env)) == demanded(*old(env)),
{
    let key = (soroban_sdk::String::from_str(env, kind), id, who.cloned());
    env.storage().persistent().extend_ttl(&key, ledgers, ledgers);
}

/// `Events::publish`: appends one event to the log of the running contract.
/// Its topics are the operation, the entity and the subject; its data are the
/// commitment and the amount. Storage and authorizations stay as they were.
#[verifier::external_body]
#[allow(deprecated)]
pub(crate) fn publish(
    env: &mut soroban_sdk::Env,
    topic: &str,
    id: u64,
    who: Option<&soroban_sdk::Address>,
    commitment: Option<[u8; 32]>,
    amount: Option<i128>,
)
    requires
        in_contract(*old(env)),
        subject_of_host(*old(env), who),
    ensures
        in_contract(*final(env)),
        published(*final(env)) == published(*old(env)).push(
            Notice { topic: topic@, id, subject: subject_of(who), commitment, amount },
        ),
        instance_entries(*final(env)) == instance_entries(*old(env)),
        persistent_entries(*final(env)) == persistent_entries(*old(env)),
        forall|k: Seq<u8>| authorized(*final(env), k) == authorized(*old(env), k),
        lifetime(*final(env)) == lifetime(*old(env)),
        longest_lifetime(*final(env)) == longest_lifetime(*old(env)),
        forall|a: soroban_sdk::Address| of_host(*final(env), a) == of_host(*old(env), a),
        initial_lifetime(*final(env)) == initial_lifetime(*old(env)),
        demanded(*final(env)) == demanded(*old(env)),
{
    let topics = (soroban_sdk::String::from_str(env, topic), id, who.cloned());
    let hash = commitment.map(|h| soroban_sdk::BytesN::from_array(env, &h));
    env.events().publish(topics, (hash, amount));
}

/// Writes the record of an entity under the key and renews the lifetime of the
/// record, as every write to a record does.
pub fn write_entry(
    env: &mut soroban_sdk::Env,
    kind: &str,
    id: Option<u64>,
    who: Option<&soroban_sdk::Address>,
    entry: Entry,
    ledgers: u32,
)
    requires
        in_contract(*old(env)),
        subject_of_host(*old(env), who),
    ensures
        in_contract(*final(env)),
        world(*final(env)) == (World {
            persistent: world(*old(env)).persistent.insert(
                slot(kind, id, who),
                Stored::Entry(entry),
            ),
            ..world(*old(env))
        }),
        renewed(*old(env), *final(env), Some(slot(kind, id, who)), ledgers),
        forall|k: Seq<u8>| authorized(*final(env), k) == authorized(*old(env), k),
        same_addresses(*old(env), *final(env)),
        demanded(*final(env)) == demanded(*old(env)),
{
    persistent_set_entry(env, kind, id, who, entry);
    persistent_extend_ttl(env, kind, id, who, ledgers);
    assert(lifetime(*env) =~= lifetime(*old(env)).insert(
        slot(kind, id, who),
        extended(standing(*old(env), slot(kind, id, who)), ledgers, longest_lifetime(*old(env))),
    ));
}

/// Writes a list of identifiers under the key and renews the lifetime of the
/// record, as every write to a record does.
pub fn write_list(
    env: &mut soroban_sdk::Env,
    kind: &str,
    id: Option<u64>,
    who: Option<&soroban_sdk::Address>,
    list: &Vec<u64>,
    ledgers: u32,
)
    requires
        in_contract(*old(env)),
        subject_of_host(*old(env), who),
    ensures
        in_contract(*final(env)),
        world(*final(env)) == (World {
            persistent: world(*old(env)).persistent.insert(
                slot(kind, id, who),
                Stored::List(list@),
            ),
            ..world(*old(env))
        }),
        renewed(*old(env), *final(env), Some(slot(kind, id, who)), ledgers),
        forall|k: Seq<u8>| authorized(*final(env), k) == authorized(*old(env), k),
        same_addresses(*old(env), *final(env)),
        demanded(*final(env)) == demanded(*old(env)),
{
    persistent_set_list(env, kind, id, who, list);
    persistent_extend_ttl(env, kind, id, who, ledgers);
    assert(lifetime(*env) =~= lifetime(*old(env)).insert(
        slot(kind, id, who),
        extended(standing(*old(env), slot(kind, id, who)), ledgers, longest_lifetime(*old(env))),
    ));
}

/// Writes a marker under the key and renews the lifetime of the
/// record, as every write to a record does.
pub fn write_flag(
    env: &mut soroban_sdk::Env,
    kind: &str,
    id: Option<u64>,
    who: Option<&soroban_sdk::Address>,
    flag: bool,
    ledgers: u32,
)
    requires
        in_contract(*old(env)),
        subject_of_host(*old(env), who),
    ensures
        in_contract(*final(env)),
        world(*final(env)) == (World {
            persistent: world(*old(env)).persistent.insert(
                slot(kind, id, who),
                Stored::Flag(flag),
            ),
            ..world(*old(env))
        }),
        renewed(*old(env), *final(env), Some(slot(kind, id, who)), ledgers),
        forall|k: Seq<u8>| authorized(*final(env), k) == authorized(*old(env), k),
        same_addresses(*old(env), *final(env)),
        demanded(*final(env)) == demanded(*old(env)),
{
    persistent_set_flag(env, kind, id, who, flag);
    persistent_extend_ttl(env, kind, id, who, ledgers);
    assert(lifetime(*env) =~= lifetime(*old(env)).insert(
        slot(kind, id, who),
        extended(standing(*old(env), slot(kind, id, who)), ledgers, longest_lifetime(*old(env))),
    ));
}

/// Writes a number under the key and renews the lifetime of the
/// record, as every write to a record does.
pub fn write_number(
    env: &mut soroban_sdk::Env,
    kind: &str,
    id: Option<u64>,
    who: Option<&soroban_sdk::Address>,
    number: u64,
    ledgers: u32,
)
    requires
        in_contract(*old(env)),
        subject_of_host(*old(env), who),
    ensures
        in_contract(*final(env)),
        world(*final(env)) == (World {
            persistent: world(*old(env)).persistent.insert(
                slot(kind, id, who),
                Stored::Number(number),
            ),
            ..world(*old(env))
        }),
        renewed(*old(env), *final(env), Some(slot(kind, id, who)), ledgers),
        forall|k: Seq<u8>| authorized(*final(env), k) == authorized(*old(env), k),
        same_addresses(*old(env), *final(env)),
        demanded(*final(env)) == demanded(*old(env)),
{
    persistent_set_number(env, kind, id, who, number);
    persistent_extend_ttl(env, kind, id, who, ledgers);
    assert(lifetime(*env) =~= lifetime(*old(env)).insert(
        slot(kind, id, who),
        extended(standing(*old(env), slot(kind, id, who)), ledgers, longest_lifetime(*old(env))),
    ));
}

} // verus!
