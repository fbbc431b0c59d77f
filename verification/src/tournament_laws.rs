//! What holds of the tournament contract over whole histories of calls.

use crate::host;
use crate::host::World;
use crate::tournament_system::{
    admin, after, clearance, joined, joined_slot, outcome, tournament,
    tournament_slot, Call, Error, TournamentData, TournamentStatus,
};
use vstd::prelude::*;

verus! {

/// The world after a history of calls, made one after the other.
pub open spec fn run(w: World, calls: Seq<Call>) -> World
    decreases calls.len(),
{
    if calls.len() == 0 {
        w
    } else {
        after(run(w, calls.drop_last()), calls.last())
    }
}

/// `later` keeps what `earlier` has settled: the administrator, every key
/// of the persistent storage and so every player's marker, and of every
/// tournament its rules, its fee, and that it is finalized once it is.
pub open spec fn keeps(earlier: World, later: World) -> bool {
    &&& admin(earlier) is Some ==> admin(later) == admin(earlier)
    &&& forall|s: host::Slot| #[trigger]
        earlier.persistent.dom().contains(s) ==> later.persistent.dom().contains(s)
    &&& forall|id: u64| #[trigger]
        tournament(earlier, id) is Some ==> {
            &&& tournament(later, id) is Some
            &&& tournament(later, id)->Some_0.rules_hash == tournament(
                earlier,
                id,
            )->Some_0.rules_hash
            &&& tournament(later, id)->Some_0.entry_fee == tournament(earlier, id)->Some_0.entry_fee
            &&& tournament(earlier, id)->Some_0.status is Finalized ==> tournament(
                later,
                id,
            )->Some_0.status is Finalized
        }
}

/// No call takes back what is settled.
pub proof fn call_keeps(w: World, call: Call)
    ensures
        keeps(w, after(w, call)),
{
}

/// Keeping is transitive.
pub proof fn keeps_chains(a: World, b: World, c: World)
    requires
        keeps(a, b),
        keeps(b, c),
    ensures
        keeps(a, c),
{
    assert forall|id: u64| #[trigger] tournament(a, id) is Some implies {
        &&& tournament(c, id) is Some
        &&& tournament(c, id)->Some_0.rules_hash == tournament(a, id)->Some_0.rules_hash
        &&& tournament(c, id)->Some_0.entry_fee == tournament(a, id)->Some_0.entry_fee
        &&& tournament(a, id)->Some_0.status is Finalized ==> tournament(
            c,
            id,
        )->Some_0.status is Finalized
    } by {
        assert(tournament(b, id) is Some);
    }
}

/// No history of calls takes back what is settled.
pub proof fn history_keeps(w: World, calls: Seq<Call>)
    ensures
        keeps(w, run(w, calls)),
    decreases calls.len(),
{
    if calls.len() > 0 {
        history_keeps(w, calls.drop_last());
        call_keeps(run(w, calls.drop_last()), calls.last());
        keeps_chains(w, run(w, calls.drop_last()), run(w, calls));
    }
}

/// A tournament is created once. After a creation has succeeded, and
/// whatever calls have been made since, no creation under the same
/// identifier succeeds, and nothing changes; the administrator who asks a fee
/// that is not negative is told `TournamentAlreadyExists`.
pub proof fn tournament_is_created_once(w: World, first: Call, between: Seq<Call>, again: Call)
    requires
        first is CreateTournament,
        again is CreateTournament,
        again->CreateTournament_id == first->CreateTournament_id,
        outcome(w, first) is Ok,
    ensures
        ({
            let u = run(after(w, first), between);
            &&& outcome(u, again) is Err
            &&& after(u, again) == u
            &&& clearance(u, again->CreateTournament_admin) is Ok
                && again->CreateTournament_entry_fee >= 0 ==> outcome(u, again) == Err::<
                (),
                Error,
            >(Error::TournamentAlreadyExists)
        }),
{
    let v = after(w, first);
    history_keeps(v, between);
    assert(v.persistent.dom().contains(tournament_slot(first->CreateTournament_id)));
}

/// A player joins a tournament once. After a player has joined, and
/// whatever calls have been made since, the player's marker stands and the
/// same player does not join the same tournament again: the answer is
/// `PlayerAlreadyJoined` while the tournament is active and
/// `TournamentNotActive` once it is finalized, and nothing changes.
pub proof fn player_joins_once(w: World, first: Call, between: Seq<Call>)
    requires
        first is JoinTournament,
        outcome(w, first) is Ok,
    ensures
        ({
            let u = run(after(w, first), between);
            let id = first->JoinTournament_id;
            &&& joined(u, id, first->JoinTournament_player)
            &&& tournament(u, id) is Some
            &&& after(u, first) == u
            &&& outcome(u, first) == if tournament(u, id)->Some_0.status is Active {
                Err::<(), Error>(Error::PlayerAlreadyJoined)
            } else {
                Err::<(), Error>(Error::TournamentNotActive)
            }
        }),
{
    let v = after(w, first);
    call_keeps(w, first);
    history_keeps(v, between);
    assert(v.persistent.dom().contains(
        joined_slot(first->JoinTournament_id, first->JoinTournament_player),
    ));
}

/// A finalized tournament stays finalized. After a finalization has
/// succeeded, and whatever calls have been made since, nobody joins the
/// tournament, and the administrator records no result in it and does not
/// finalize it again: the answers are `TournamentNotActive`,
/// `TournamentNotActive` and `TournamentAlreadyFinalized`.
pub proof fn finalized_is_terminal(
    w: World,
    first: Call,
    between: Seq<Call>,
    caller: Seq<u8>,
    player: Seq<u8>,
    score: u64,
)
    requires
        first is FinalizeTournament,
        outcome(w, first) is Ok,
    ensures
        ({
            let id = first->FinalizeTournament_id;
            let u = run(after(w, first), between);
            &&& tournament(u, id) is Some
            &&& tournament(u, id)->Some_0.status is Finalized
            &&& clearance(u, first->FinalizeTournament_admin) is Ok
            &&& outcome(u, Call::JoinTournament { player, id }) == Err::<(), Error>(
                Error::TournamentNotActive,
            )
            &&& outcome(u, Call::RecordResult { admin: caller, id, player, score }) is Err
            &&& outcome(u, Call::FinalizeTournament { admin: caller, id }) is Err
            &&& clearance(u, caller) is Ok ==> {
                &&& outcome(u, Call::RecordResult { admin: caller, id, player, score }) == Err::<
                    (),
                    Error,
                >(Error::TournamentNotActive)
                &&& outcome(u, Call::FinalizeTournament { admin: caller, id }) == Err::<(), Error>(
                    Error::TournamentAlreadyFinalized,
                )
            }
        }),
{
    let id = first->FinalizeTournament_id;
    let v = after(w, first);
    call_keeps(w, first);
    history_keeps(v, between);
}

/// A player who has not joined stays so until a call to join succeeds.
pub proof fn stays_unjoined(w: World, calls: Seq<Call>, id: u64, player: Seq<u8>)
    requires
        !joined(w, id, player),
        forall|i: int|
            0 <= i < calls.len() ==> #[trigger] calls[i] != (Call::JoinTournament { player, id }),
    ensures
        !joined(run(w, calls), id, player),
    decreases calls.len(),
{
    if calls.len() > 0 {
        let before = calls.drop_last();
        assert forall|i: int| 0 <= i < before.len() implies #[trigger] before[i] != (
        Call::JoinTournament { player, id }) by {
            assert(before[i] == calls[i]);
        }
        stays_unjoined(w, before, id, player);
        // A result is written under another kind than a marker.
        reveal_strlit("PlayerJoined");
        reveal_strlit("PlayerScore");
        assert("PlayerJoined"@.len() != "PlayerScore"@.len());
        assert(calls.last() == calls[calls.len() - 1]);
    }
}

/// No result without joining. Where a player has not joined a tournament,
/// and no call to join has been made for that player since, no result is
/// recorded for the player, and nothing changes; the administrator is told
/// `PlayerNotJoined` where the tournament is active.
pub proof fn no_result_without_joining(w: World, between: Seq<Call>, attempt: Call)
    requires
        attempt is RecordResult,
        !joined(w, attempt->RecordResult_id, attempt->RecordResult_player),
        forall|i: int|
            0 <= i < between.len() ==> #[trigger] between[i] != (Call::JoinTournament {
                player: attempt->RecordResult_player,
                id: attempt->RecordResult_id,
            }),
    ensures
        ({
            let u = run(w, between);
            let t = tournament(u, attempt->RecordResult_id);
            &&& outcome(u, attempt) is Err
            &&& after(u, attempt) == u
            &&& clearance(u, attempt->RecordResult_admin) is Ok && t is Some && t->Some_0.status
                is Active ==> outcome(u, attempt) == Err::<(), Error>(Error::PlayerNotJoined)
        }),
{
    stays_unjoined(w, between, attempt->RecordResult_id, attempt->RecordResult_player);
}

/// A call that fails changes nothing.
pub proof fn failure_changes_nothing(w: World, call: Call)
    requires
        outcome(w, call) is Err,
    ensures
        after(w, call) == w,
{
}

/// Initialization makes the named address the administrator: from then on
/// it is cleared for the privileged operations and nobody else is.
pub proof fn init_appoints_administrator(w: World, call: Call, other: Seq<u8>)
    requires
        call is Init,
        outcome(w, call) is Ok,
    ensures
        admin(after(w, call)) == Some(call->Init_admin),
        clearance(after(w, call), call->Init_admin) is Ok,
        other != call->Init_admin ==> clearance(after(w, call), other) == Err::<(), Error>(
            Error::NotAuthorized,
        ),
        outcome(after(w, call), call) == Err::<(), Error>(Error::AlreadyInitialized),
{
    reveal_strlit("Admin");
    reveal_strlit("FeeContract");
    reveal_strlit("RewardContract");
    assert("Admin"@.len() != "FeeContract"@.len());
    assert("Admin"@.len() != "RewardContract"@.len());
}

/// Authorization comes first. A caller of a privileged operation who is not
/// cleared is told so and nothing else, whatever the call asks for: the
/// answer does not show which tournaments there are or who has joined them.
pub proof fn clearance_comes_first(w: World, call: Call)
    requires
        !(call is Init),
        !(call is JoinTournament),
    ensures
        ({
            let caller = match call {
                Call::CreateTournament { admin, .. } => admin,
                Call::RecordResult { admin, .. } => admin,
                Call::FinalizeTournament { admin, .. } => admin,
                Call::Init { admin, .. } => admin,
                Call::JoinTournament { player, .. } => player,
            };
            clearance(w, caller) is Err ==> outcome(w, call) == clearance(w, caller)
        }),
{
}

/// A tournament moves forward only: it is created `Active`, and the one call
/// that changes its state is the finalization, which makes it `Finalized`.
pub proof fn status_moves_forward(w: World, call: Call, id: u64)
    ensures
        tournament(w, id) is None && tournament(after(w, call), id) is Some ==> call
            is CreateTournament && tournament(after(w, call), id)->Some_0.status is Active,
        tournament(w, id) is Some && tournament(after(w, call), id) != tournament(w, id) ==> {
            &&& call is FinalizeTournament
            &&& tournament(w, id)->Some_0.status is Active
            &&& tournament(after(w, call), id) == Some(
                TournamentData { status: TournamentStatus::Finalized, ..tournament(w, id)->Some_0 },
            )
        },
{
}

} // verus!
