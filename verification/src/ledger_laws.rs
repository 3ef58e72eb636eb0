//! What holds of the ledger over whole histories of presence events.

use crate::ledger::ledger_step;
use crate::ledger::record_step;
use crate::ledger::state_of;
use crate::ledger::PresenceEvent;
use crate::ledger::PresenceState;
use vstd::prelude::*;

verus! {

/// One entry of a history of presence events: who, what, when.
pub struct PresenceOp {
    pub user: u64,
    pub event: PresenceEvent,
    pub at: int,
}

/// The ledger after a history of events, applied in order to `m`.
pub open spec fn replay(m: Map<u64, PresenceState>, ops: Seq<PresenceOp>) -> Map<
    u64,
    PresenceState,
>
    decreases ops.len(),
{
    if ops.len() == 0 {
        m
    } else {
        ledger_step(replay(m, ops.drop_last()), ops.last().user, ops.last().event, ops.last().at)
    }
}

/// The events of `user` in a history, in the history's order.
pub open spec fn events_of(ops: Seq<PresenceOp>, user: u64) -> Seq<(PresenceEvent, int)>
    decreases ops.len(),
{
    if ops.len() == 0 {
        Seq::empty()
    } else if ops.last().user == user {
        events_of(ops.drop_last(), user).push((ops.last().event, ops.last().at))
    } else {
        events_of(ops.drop_last(), user)
    }
}

/// One user's state after that user's events, applied in order to `state`.
pub open spec fn replay_one(state: Option<PresenceState>, events: Seq<(PresenceEvent, int)>) -> Option<
    PresenceState,
>
    decreases events.len(),
{
    if events.len() == 0 {
        state
    } else {
        record_step(replay_one(state, events.drop_last()), events.last().0, events.last().1)
    }
}

/// Each event happens later than the one before it.
pub open spec fn strictly_increasing(events: Seq<(PresenceEvent, int)>) -> bool {
    forall|i: int, j: int| 0 <= i < j < events.len() ==> (#[trigger] events[i]).1 < (
    #[trigger] events[j]).1
}

/// The accumulated seconds of a state; zero for a user without a record.
pub open spec fn accumulated_of(state: Option<PresenceState>) -> nat {
    match state {
        Some(state) => state.accumulated_seconds,
        None => 0,
    }
}

/// Whether a state has a session open.
pub open spec fn has_open_session(state: Option<PresenceState>) -> bool {
    state is Some && state->0.open_session_start is Some
}

/// Where the run of joins that reaches position `k` begins: the join that
/// opened the session which is open after event `k`.
pub open spec fn session_opened_at(events: Seq<(PresenceEvent, int)>, k: int) -> int
    decreases k,
{
    if k <= 0 || events[k - 1].0 == PresenceEvent::Left {
        k
    } else {
        session_opened_at(events, k - 1)
    }
}

/// Whether event `k` closes a session: it is a leave right after a join.
pub open spec fn closes_session(events: Seq<(PresenceEvent, int)>, k: int) -> bool {
    &&& 1 <= k < events.len()
    &&& events[k].0 == PresenceEvent::Left
    &&& events[k - 1].0 == PresenceEvent::Joined
}

/// The sum of the lengths of the sessions that the first `n` events close,
/// each measured from the join that opened it to the leave that closed it.
pub open spec fn closed_total(events: Seq<(PresenceEvent, int)>, n: int) -> int
    decreases n,
{
    if n <= 0 {
        0
    } else if closes_session(events, n - 1) {
        closed_total(events, n - 1) + (events[n - 1].1 - events[session_opened_at(
            events,
            n - 2,
        )].1)
    } else {
        closed_total(events, n - 1)
    }
}

/// A leave without an open session changes nothing: not the user's
/// accumulated seconds, not anything else.
pub proof fn lemma_left_without_session(m: Map<u64, PresenceState>, user: u64, at: int)
    requires
        !has_open_session(state_of(m, user)),
    ensures
        ledger_step(m, user, PresenceEvent::Left, at) == m,
{
    assert(ledger_step(m, user, PresenceEvent::Left, at) =~= m);
}

/// No event ever lowers anybody's accumulated seconds, and only a leave that
/// closes a session raises them.
pub proof fn lemma_accumulated_never_decreases(
    m: Map<u64, PresenceState>,
    user: u64,
    event: PresenceEvent,
    at: int,
    other: u64,
)
    ensures
        accumulated_of(state_of(ledger_step(m, user, event, at), other)) >= accumulated_of(
            state_of(m, other),
        ),
        other != user ==> state_of(ledger_step(m, user, event, at), other) == state_of(m, other),
        event == PresenceEvent::Joined ==> accumulated_of(
            state_of(ledger_step(m, user, event, at), other),
        ) == accumulated_of(state_of(m, other)),
{
}

/// Joining is idempotent: a second join without a leave in between changes
/// nothing, so the session keeps the start that the first join gave it.
pub proof fn lemma_join_twice(m: Map<u64, PresenceState>, user: u64, first: int, second: int)
    ensures
        ledger_step(ledger_step(m, user, PresenceEvent::Joined, first), user, PresenceEvent::Joined, second)
            == ledger_step(m, user, PresenceEvent::Joined, first),
        !has_open_session(state_of(m, user)) ==> state_of(
            ledger_step(
                ledger_step(m, user, PresenceEvent::Joined, first),
                user,
                PresenceEvent::Joined,
                second,
            ),
            user,
        )->0.open_session_start == Some(first),
{
    let once = ledger_step(m, user, PresenceEvent::Joined, first);
    assert(ledger_step(once, user, PresenceEvent::Joined, second) =~= once);
}

/// Users do not affect each other: after any history, a user's state is what
/// that user's own events, in their order, make of the state the user had.
pub proof fn lemma_users_independent(m: Map<u64, PresenceState>, ops: Seq<PresenceOp>, user: u64)
    ensures
        state_of(replay(m, ops), user) == replay_one(state_of(m, user), events_of(ops, user)),
    decreases ops.len(),
{
    if ops.len() > 0 {
        lemma_users_independent(m, ops.drop_last(), user);
        if ops.last().user == user {
            let events = events_of(ops, user);
            assert(events.drop_last() =~= events_of(ops.drop_last(), user));
        }
    }
}

proof fn lemma_session_opened_at_bounds(events: Seq<(PresenceEvent, int)>, k: int)
    requires
        0 <= k < events.len(),
    ensures
        0 <= session_opened_at(events, k) <= k,
    decreases k,
{
    if !(k <= 0 || events[k - 1].0 == PresenceEvent::Left) {
        lemma_session_opened_at_bounds(events, k - 1);
    }
}

proof fn lemma_prefix_agrees(events: Seq<(PresenceEvent, int)>, n: int, k: int)
    requires
        0 <= k <= n <= events.len(),
    ensures
        closed_total(events.take(n), k) == closed_total(events, k),
        k < n ==> session_opened_at(events.take(n), k) == session_opened_at(events, k),
    decreases k,
{
    let prefix = events.take(n);
    if k > 0 {
        lemma_prefix_agrees(events, n, k - 1);
        assert(prefix[k - 1] == events[k - 1]);
        if k >= 2 {
            assert(prefix[k - 2] == events[k - 2]);
            lemma_prefix_agrees(events, n, k - 2);
            lemma_session_opened_at_bounds(events, k - 2);
            assert(prefix[session_opened_at(events, k - 2)] == events[session_opened_at(
                events,
                k - 2,
            )]);
        }
    }
}

/// What one user's events make of a state without an open session, event by
/// event: the accumulated seconds grow by the sessions closed so far, and a
/// session is open exactly after a join, since the join that began the run
/// of joins.
proof fn lemma_sessions_account(start: Option<PresenceState>, events: Seq<(PresenceEvent, int)>)
    requires
        !has_open_session(start),
        strictly_increasing(events),
    ensures
        accumulated_of(replay_one(start, events)) == accumulated_of(start) + closed_total(
            events,
            events.len() as int,
        ),
        events.len() > 0 && events.last().0 == PresenceEvent::Joined ==> replay_one(
            start,
            events,
        ) is Some && replay_one(start, events)->0.open_session_start == Some(
            events[session_opened_at(events, events.len() - 1)].1,
        ),
        events.len() > 0 && events.last().0 == PresenceEvent::Left ==> !has_open_session(
            replay_one(start, events),
        ),
        events.len() == 0 ==> replay_one(start, events) == start,
    decreases events.len(),
{
    if events.len() > 0 {
        let n = events.len() as int;
        let earlier = events.drop_last();
        assert(earlier =~= events.take(n - 1));
        assert(strictly_increasing(earlier)) by {
            assert forall|i: int, j: int| 0 <= i < j < earlier.len() implies (
            #[trigger] earlier[i]).1 < (#[trigger] earlier[j]).1 by {
                assert(earlier[i] == events[i]);
                assert(earlier[j] == events[j]);
            }
        }
        lemma_sessions_account(start, earlier);
        lemma_prefix_agrees(events, n - 1, n - 1);
        if n >= 2 {
            assert(earlier.last() == events[n - 2]);
            lemma_prefix_agrees(events, n - 1, n - 2);
            lemma_session_opened_at_bounds(events, n - 2);
            let opened = session_opened_at(events, n - 2);
            assert(events[opened].1 <= events[n - 2].1) by {
                if opened < n - 2 {
                    assert(events[opened].1 < events[n - 2].1);
                }
            }
            assert(events[n - 2].1 < events[n - 1].1);
        }
    }
}

/// For one user's events with strictly increasing times, applied to a ledger
/// in which the user has no session open: the accumulated seconds grow by
/// exactly the sum of the lengths of the sessions closed, whatever other
/// users do in between.
pub proof fn lemma_accumulated_is_sum_of_sessions(
    m: Map<u64, PresenceState>,
    ops: Seq<PresenceOp>,
    user: u64,
)
    requires
        !has_open_session(state_of(m, user)),
        strictly_increasing(events_of(ops, user)),
    ensures
        accumulated_of(state_of(replay(m, ops), user)) == accumulated_of(state_of(m, user))
            + closed_total(events_of(ops, user), events_of(ops, user).len() as int),
{
    lemma_users_independent(m, ops, user);
    lemma_sessions_account(state_of(m, user), events_of(ops, user));
}

} // verus!
