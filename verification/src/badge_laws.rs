//! What holds of the badge contract over whole histories of calls.

use crate::achievement_badge::{
    admin, after, badge_slot, badges, clearance, definition, outcome, user_slot, Call, Error,
};
use crate::host;
use crate::host::World;
use vstd::prelude::*;

verus! {

/// The world after a history of calls, made one after the other.
pub open spec fn run(w: World, calls: Seq<Call>) -> World
    decreases calls.len(),
{
    if calls.len() == 0 {
        w
    } else {
        after(run(w, calls.drop_last()), calls.last())
    }
}

/// `later` keeps what `earlier` has settled: the administrator, every key
/// of the persistent storage, every definition, and every badge of every
/// user, in the order in which they were awarded.
pub open spec fn keeps(earlier: World, later: World) -> bool {
    &&& admin(earlier) is Some ==> admin(later) == admin(earlier)
    &&& forall|s: host::Slot| #[trigger]
        earlier.persistent.dom().contains(s) ==> later.persistent.dom().contains(s)
    &&& forall|id: u64| #[trigger]
        definition(earlier, id) is Some ==> definition(later, id) == definition(earlier, id)
    &&& forall|user: Seq<u8>| #[trigger] badges(earlier, user).is_prefix_of(badges(later, user))
}

/// No call takes back what is settled.
pub proof fn call_keeps(w: World, call: Call)
    ensures
        keeps(w, after(w, call)),
{
}

/// Keeping is transitive.
pub proof fn keeps_chains(a: World, b: World, c: World)
    requires
        keeps(a, b),
        keeps(b, c),
    ensures
        keeps(a, c),
{
    assert forall|user: Seq<u8>| #[trigger] badges(a, user).is_prefix_of(badges(c, user)) by {
        assert(badges(a, user).is_prefix_of(badges(b, user)));
        assert(badges(b, user).is_prefix_of(badges(c, user)));
    }
}

/// No history of calls takes back what is settled.
pub proof fn history_keeps(w: World, calls: Seq<Call>)
    ensures
        keeps(w, run(w, calls)),
    decreases calls.len(),
{
    if calls.len() > 0 {
        history_keeps(w, calls.drop_last());
        call_keeps(run(w, calls.drop_last()), calls.last());
        keeps_chains(w, run(w, calls.drop_last()), run(w, calls));
    }
}

/// A badge is defined once. After a definition has succeeded, and whatever
/// calls have been made since, no definition of the same badge succeeds, and
/// nothing changes; the administrator who offers a reward that is not
/// negative is told `BadgeAlreadyExists`.
pub proof fn badge_is_defined_once(w: World, first: Call, between: Seq<Call>, again: Call)
    requires
        first is DefineBadge,
        again is DefineBadge,
        again->DefineBadge_badge_id == first->DefineBadge_badge_id,
        outcome(w, first) is Ok,
    ensures
        ({
            let u = run(after(w, first), between);
            &&& outcome(u, again) is Err
            &&& after(u, again) == u
            &&& clearance(u, again->DefineBadge_admin) is Ok && again->DefineBadge_reward >= 0
                ==> outcome(u, again) == Err::<(), Error>(Error::BadgeAlreadyExists)
        }),
{
    let v = after(w, first);
    history_keeps(v, between);
    assert(v.persistent.dom().contains(badge_slot(first->DefineBadge_badge_id)));
}

/// A badge is awarded to a user once. After an award has succeeded, and
/// whatever calls have been made since, the user holds the badge, no award of
/// the same badge to the same user succeeds, and nothing changes; the
/// administrator is told `BadgeAlreadyAwarded`.
pub proof fn badge_is_awarded_once(w: World, first: Call, between: Seq<Call>, again: Call)
    requires
        first is AwardBadge,
        again is AwardBadge,
        again->AwardBadge_user == first->AwardBadge_user,
        again->AwardBadge_badge_id == first->AwardBadge_badge_id,
        outcome(w, first) is Ok,
    ensures
        ({
            let u = run(after(w, first), between);
            &&& badges(u, first->AwardBadge_user).contains(first->AwardBadge_badge_id)
            &&& outcome(u, again) is Err
            &&& after(u, again) == u
            &&& clearance(u, first->AwardBadge_admin) is Ok
            &&& clearance(u, again->AwardBadge_admin) is Ok ==> outcome(u, again) == Err::<
                (),
                Error,
            >(Error::BadgeAlreadyAwarded)
        }),
{
    let v = after(w, first);
    let u = run(v, between);
    let user = first->AwardBadge_user;
    let badge_id = first->AwardBadge_badge_id;
    call_keeps(w, first);
    history_keeps(v, between);
    assert(badges(v, user).is_prefix_of(badges(u, user)));
    assert(badges(v, user)[badges(w, user).len() as int] == badge_id);
}

/// An award puts the badge at the end of the user's list and leaves the
/// lists of the other users alone.
pub proof fn award_appends(w: World, call: Call, other: Seq<u8>)
    requires
        call is AwardBadge,
        outcome(w, call) is Ok,
    ensures
        badges(after(w, call), call->AwardBadge_user) == badges(w, call->AwardBadge_user).push(
            call->AwardBadge_badge_id,
        ),
        other != call->AwardBadge_user ==> badges(after(w, call), other) == badges(w, other),
{
}

/// The calls by which the administrator awards the badges to the user, one
/// after the other.
pub open spec fn awards(admin: Seq<u8>, user: Seq<u8>, ids: Seq<u64>) -> Seq<Call> {
    Seq::new(ids.len(), |i: int| Call::AwardBadge { admin, user, badge_id: ids[i] })
}

/// Badges come back in the order of their award. Where the administrator
/// awards a user, who holds none of them yet, badges that are defined and all
/// different, the user then holds them after those held before, in the order
/// in which they were awarded.
pub proof fn awards_keep_their_order(w: World, admin: Seq<u8>, user: Seq<u8>, ids: Seq<u64>)
    requires
        clearance(w, admin) is Ok,
        ids.no_duplicates(),
        forall|i: int| 0 <= i < ids.len() ==> definition(w, #[trigger] ids[i]) is Some,
        forall|i: int| 0 <= i < ids.len() ==> !badges(w, user).contains(#[trigger] ids[i]),
    ensures
        badges(run(w, awards(admin, user, ids)), user) == badges(w, user) + ids,
    decreases ids.len(),
{
    if ids.len() > 0 {
        let front = ids.drop_last();
        assert(awards(admin, user, ids).drop_last() =~= awards(admin, user, front));
        awards_keep_their_order(w, admin, user, front);
        history_keeps(w, awards(admin, user, front));
        assert(!(badges(w, user) + front).contains(ids.last()));
    }
}

/// A list of badges in which nothing occurs twice stays so under every call.
pub proof fn badges_stay_distinct(w: World, call: Call, user: Seq<u8>)
    requires
        badges(w, user).no_duplicates(),
    ensures
        badges(after(w, call), user).no_duplicates(),
{
}

/// A user who was never awarded a badge holds none.
pub proof fn no_award_no_badges(w: World, user: Seq<u8>)
    requires
        !w.persistent.dom().contains(user_slot(user)),
    ensures
        badges(w, user) == Seq::<u64>::empty(),
{
}

/// A call that fails changes nothing.
pub proof fn failure_changes_nothing(w: World, call: Call)
    requires
        outcome(w, call) is Err,
    ensures
        after(w, call) == w,
{
}

/// Initialization makes its caller the administrator: from then on the
/// caller is cleared for the privileged operations and nobody else is.
pub proof fn init_appoints_administrator(w: World, call: Call, other: Seq<u8>)
    requires
        call is Init,
        outcome(w, call) is Ok,
    ensures
        admin(after(w, call)) == Some(call->Init_admin),
        clearance(after(w, call), call->Init_admin) is Ok,
        other != call->Init_admin ==> clearance(after(w, call), other) == Err::<(), Error>(
            Error::NotAuthorized,
        ),
        outcome(after(w, call), call) == Err::<(), Error>(Error::AlreadyInitialized),
{
    reveal_strlit("Admin");
    reveal_strlit("RewardContract");
    assert("Admin"@.len() != "RewardContract"@.len());
}

/// Authorization comes first. A caller who is not cleared is told so and
/// nothing else, whatever the call asks for: the answer does not show which
/// badges are defined or awarded.
pub proof fn clearance_comes_first(w: World, call: Call)
    requires
        !(call is Init),
    ensures
        ({
            let caller = match call {
                Call::DefineBadge { admin, .. } => admin,
                Call::EvaluateUser { admin, .. } => admin,
                Call::AwardBadge { admin, .. } => admin,
                Call::Init { admin, .. } => admin,
            };
            clearance(w, caller) is Err ==> outcome(w, call) == clearance(w, caller)
        }),
{
}

} // verus!
