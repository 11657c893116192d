//! Sessions that nobody uses are removed after a while.
use vstd::prelude::*;

use crate::clock::NANOS_PER_SEC;
use crate::relay::admin::{close_recording, is_recorded};
use crate::relay::session::removed_session_is_closed;
use crate::relay::state::{RelayView, SharedState};
use crate::strmap::values_where;
use crate::text::{str_eq, texts_view};

verus! {

/// How long a session may go unheard, in seconds.
pub const IDLE_LIMIT_SECS: u64 = 1800;

/// Whether a session has gone unheard for too long.
pub open spec fn is_idle(v: RelayView, sid: Seq<char>, now: u128) -> bool {
    v.last_activity.contains_key(sid) && v.last_activity[sid] + IDLE_LIMIT_SECS * NANOS_PER_SEC
        < now
}

/// Whether a session is known and temporary.
pub open spec fn is_temporary(v: RelayView, sid: Seq<char>) -> bool {
    v.registry.sessions.contains_key(sid) && v.registry.sessions[sid].is_temporary
}

/// The requests that wait for other sessions.
pub open spec fn waiting_elsewhere(
    pending: Map<Seq<char>, Seq<char>>,
    sid: Seq<char>,
) -> Map<Seq<char>, Seq<char>> {
    values_where(pending, |to: Seq<char>| to != sid)
}

/// The relay without a session, if it is temporary; one with a fixed key stays.
pub open spec fn reaped(v: RelayView, sid: Seq<char>) -> RelayView {
    if is_temporary(v, sid) {
        RelayView {
            pending: waiting_elsewhere(v.pending, sid),
            registry: v.registry.remove(sid),
            channels: v.channels.remove(sid),
            last_activity: v.last_activity.remove(sid),
            buffers: v.buffers.remove(sid),
            recorder: match v.recorder {
                Some(r) => Some(r.close(sid)),
                None => None,
            },
            ..v
        }
    } else {
        v
    }
}

/// The relay after each of `ids` was removed in turn.
pub open spec fn reaped_all(v: RelayView, ids: Seq<Seq<char>>) -> RelayView
    decreases ids.len(),
{
    if ids.len() == 0 {
        v
    } else {
        reaped(reaped_all(v, ids.drop_last()), ids.last())
    }
}

/// Each session that has gone unheard for too long, once.
pub open spec fn all_idle(v: RelayView, ids: Seq<Seq<char>>, now: u128) -> bool {
    &&& ids.no_duplicates()
    &&& forall|sid: Seq<char>| #[trigger] ids.contains(sid) <==> is_idle(v, sid, now)
}

/// Removes a session, if it is temporary.
pub fn reap(state: &mut SharedState, session_id: &str)
    ensures
        final(state)@ == reaped(old(state)@, session_id@),
{
    let ghost v = state@;
    if !state.sessions.is_temporary(session_id) {
        return;
    }
    let elsewhere = |to: &String| -> (b: bool)
        ensures
            b == (to@ != session_id@),
        { !str_eq(to.as_str(), session_id) };
    state.pending_mcp.retain(elsewhere, Ghost(|to: Seq<char>| to != session_id@));
    state.sessions.remove(session_id);
    let _ = state.agent_broadcast.remove(session_id);
    let _ = state.last_activity.remove(session_id);
    let _ = state.agent_event_buffers.remove(session_id);
    close_recording(state, session_id);
    assert(state@ =~= reaped(v, session_id@));
}

fn idle_sessions(state: &SharedState, now: u128) -> (r: Vec<String>)
    ensures
        all_idle(state@, texts_view(r@), now),
{
    let limit: u128 = IDLE_LIMIT_SECS as u128 * NANOS_PER_SEC;
    let unheard = |last: &u128| -> (b: bool)
        ensures
            b == (*last + limit < now),
        { now > *last && now - *last > limit };
    let ghost pred = |last: u128| last + limit < now;
    let r = state.last_activity.keys_where(unheard, Ghost(pred));
    proof {
        let ids = texts_view(r@);
        assert forall|sid: Seq<char>| #[trigger] ids.contains(sid) <==> is_idle(
            state@,
            sid,
            now,
        ) by {
            assert(ids.to_set().contains(sid) <==> values_where(
                state@.last_activity,
                pred,
            ).contains_key(sid));
        }
    }
    r
}

/// Removes the temporary sessions that have gone unheard for too long, at the time given.
pub fn sweep_idle_at(state: &mut SharedState, now: u128)
    ensures
        exists|ids: Seq<Seq<char>>| #[trigger]
            all_idle(old(state)@, ids, now) && final(state)@ == reaped_all(old(state)@, ids),
{
    let ghost v = state@;
    let ids = idle_sessions(state, now);
    let ghost all = texts_view(ids@);
    let mut i: usize = 0;
    assert(all.take(0) =~= Seq::<Seq<char>>::empty());
    while i < ids.len()
        invariant
            i <= ids@.len(),
            all == texts_view(ids@),
            state@ == reaped_all(v, all.take(i as int)),
        decreases ids@.len() - i,
    {
        reap(state, ids[i].as_str());
        assert(all.take(i + 1).drop_last() =~= all.take(i as int));
        assert(all.take(i + 1).last() == ids@[i as int]@);
        i = i + 1;
    }
    assert(all.take(all.len() as int) =~= all);
    assert(all_idle(v, all, now));
}

/// Removes the temporary sessions that have gone unheard for too long.
pub fn sweep_idle(state: &mut SharedState)
    ensures
        exists|now: u128, ids: Seq<Seq<char>>| #[trigger]
            all_idle(old(state)@, ids, now) && final(state)@ == reaped_all(old(state)@, ids),
{
    let now = state.now();
    sweep_idle_at(state, now);
}

// ---- laws ----
/// A temporary session that is removed leaves nothing: no token opens it, nothing waits for it, and
/// its recording ends.
pub proof fn reaped_session_is_gone(v: RelayView, sid: Seq<char>, t: Seq<char>)
    requires
        v.registry.valid(),
        is_temporary(v, sid),
    ensures
        ({
            let w = reaped(v, sid);
            &&& !w.registry.sessions.contains_key(sid)
            &&& !w.registry.opens(t, sid)
            &&& !w.channels.contains_key(sid)
            &&& !w.buffers.contains_key(sid)
            &&& !w.last_activity.contains_key(sid)
            &&& !is_recorded(w, sid)
            &&& forall|r: Seq<char>| #[trigger] w.pending.contains_key(r) ==> w.pending[r] != sid
        }),
{
    removed_session_is_closed(v.registry, sid, t);
}

/// A sweep keeps what is not both idle and temporary: such a session stays registered and keeps its
/// channel.
pub proof fn sweep_keeps_others(v: RelayView, ids: Seq<Seq<char>>, sid: Seq<char>)
    requires
        !ids.contains(sid) || !is_temporary(v, sid),
        v.registry.sessions.contains_key(sid),
    ensures
        reaped_all(v, ids).registry.sessions.contains_key(sid),
        reaped_all(v, ids).registry.sessions[sid] == v.registry.sessions[sid],
        reaped_all(v, ids).channels.contains_key(sid) == v.channels.contains_key(sid),
        v.channels.contains_key(sid) ==> reaped_all(v, ids).channels[sid] == v.channels[sid],
    decreases ids.len(),
{
    if ids.len() > 0 {
        let init = ids.drop_last();
        if init.contains(sid) {
            let i = choose|i: int| 0 <= i < init.len() && init[i] == sid;
            assert(ids[i] == sid);
        }
        assert(ids[ids.len() - 1] == ids.last());
        sweep_keeps_others(v, init, sid);
    }
}

/// A sweep removes every idle temporary session.
pub proof fn sweep_removes_idle(v: RelayView, ids: Seq<Seq<char>>, sid: Seq<char>)
    requires
        ids.contains(sid),
        is_temporary(v, sid),
    ensures
        !reaped_all(v, ids).registry.sessions.contains_key(sid),
    decreases ids.len(),
{
    let init = ids.drop_last();
    if init.contains(sid) {
        sweep_removes_idle(v, init, sid);
    } else {
        let i = choose|i: int| 0 <= i < ids.len() && ids[i] == sid;
        if i < init.len() {
            assert(init[i] == sid);
        }
        sweep_keeps_others(v, init, sid);
    }
}

} // verus!
