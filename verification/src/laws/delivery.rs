//! Messages that wait are taken in the order in which they came.
use vstd::prelude::*;

use crate::json::JsonView;
use crate::relay::state::{Offer, RelayView};
use crate::relay::upload::{
    after, upload_step, UploadActionView, UploadEventView, UploadPhaseView, UploadView,
};

verus! {

/// Whether so many messages, and these, wait for the connected agent of a session.
pub open spec fn agent_has(v: RelayView, sid: Seq<char>, q: Seq<JsonView>) -> bool {
    v.channels.contains_key(sid) && v.channels[sid].agent == Some(q)
}

/// An agent that takes a message gets the oldest, and the others wait on in their order; nothing
/// else changes. An agent that nothing waits for, or that is not connected, gets none.
pub proof fn agent_takes_the_oldest(
    v: RelayView,
    sid: Seq<char>,
    m: JsonView,
    rest: Seq<JsonView>,
    other: Seq<char>,
)
    requires
        other != sid,
    ensures
        agent_has(v, sid, seq![m] + rest) ==> {
            let (w, got) = v.agent_takes(sid);
            &&& got == Some(m)
            &&& agent_has(w, sid, rest)
            &&& w.channels[sid].browsers == v.channels[sid].browsers
            &&& w.channels[sid].connection == v.channels[sid].connection
            &&& v.channels.contains_key(other) ==> w.channels.contains_key(other)
                && w.channels[other] == v.channels[other]
            &&& w.streams == v.streams && w.registry == v.registry && w.pending == v.pending
        },
        agent_has(v, sid, Seq::empty()) || !v.channels.contains_key(sid) || v.channels[sid].agent
            is None ==> v.agent_takes(sid) == (v, None::<JsonView>),
{
    assert((seq![m] + rest).skip(1) =~= rest);
}

/// What is sent to an agent that nothing waits for is what it takes next.
pub proof fn sent_message_is_taken(v: RelayView, sid: Seq<char>, m: JsonView)
    requires
        agent_has(v, sid, Seq::empty()),
    ensures
        v.to_agent(sid, m).agent_takes(sid).1 == Some(m),
        agent_has(v.to_agent(sid, m).agent_takes(sid).0, sid, Seq::empty()),
{
    let none = Seq::<JsonView>::empty();
    assert(none.push(m).skip(1) =~= none);
}

/// Nothing is sent to an agent that is not connected.
pub proof fn absent_agent_gets_nothing(v: RelayView, sid: Seq<char>, m: JsonView, c: u64)
    requires
        !v.channels.contains_key(sid) || v.channels[sid].agent is None,
    ensures
        v.to_agent(sid, m) == v,
        v.offered(sid, c, m) == (v, Offer::Gone),
        !v.online(sid),
        v.connection(sid) is None,
{
}

/// An offered message is taken at the end of the queue while fewer than 256 wait; it is never
/// dropped for another, and a full queue stays as it is.
pub proof fn offer_waits_for_room(v: RelayView, sid: Seq<char>, m: JsonView, q: Seq<JsonView>)
    requires
        agent_has(v, sid, q),
    ensures
        ({
            let (w, r) = v.offered(sid, v.channels[sid].connection, m);
            &&& q.len() < 256 ==> r == Offer::Sent && agent_has(w, sid, q.push(m))
            &&& q.len() >= 256 ==> r == Offer::Full && w == v
        }),
{
}

/// A stream that takes a message gets the oldest, and the others wait on in their order; the other
/// streams stay. A stream that nothing waits for gets none.
pub proof fn stream_takes_the_oldest(
    v: RelayView,
    id: Seq<char>,
    m: JsonView,
    rest: Seq<JsonView>,
    other: Seq<char>,
)
    requires
        other != id,
    ensures
        v.streams.contains_key(id) && v.streams[id] == seq![m] + rest ==> {
            let (w, got) = v.stream_takes(id);
            &&& got == Some(m)
            &&& w.streams[id] == rest
            &&& v.streams.contains_key(other) ==> w.streams.contains_key(other)
                && w.streams[other] == v.streams[other]
            &&& w.channels == v.channels && w.registry == v.registry
        },
        !v.streams.contains_key(id) || v.streams[id].len() == 0 ==> v.stream_takes(id) == (
            v,
            None::<JsonView>,
        ),
{
    assert((seq![m] + rest).skip(1) =~= rest);
}

/// What is sent to an agent is numbered from 1, and can be sent again to an agent that asks for
/// what came after an earlier one.
pub proof fn sent_event_can_be_replayed(v: RelayView, sid: Seq<char>, msg: Seq<char>)
    requires
        !v.buffers.contains_key(sid),
        vstd::utf8::encode_utf8(msg).len() <= 8_388_608,
    ensures
        ({
            let (w, id) = v.event_sent(sid, msg);
            &&& id == 1
            &&& w.buffers.contains_key(sid)
            &&& w.buffers[sid].replay_from(0) == seq![(1u64, msg)]
            &&& w.buffers[sid].replay_from(1) == Seq::<(u64, Seq<char>)>::empty()
            &&& w.channels == v.channels && w.streams == v.streams && w.registry == v.registry
        }),
{
    let b = v.buffer(sid);
    let all = b.events.push((1u64, msg));
    assert(all =~= seq![(1u64, msg)]);
    crate::laws::upkeep::events_are_measured(b.events, 1, msg);
    crate::laws::upkeep::buffer_keeps_what_fits(b, msg);
    let e = b.push(msg).events;
    assert(e =~= seq![(1u64, msg)]);
    assert(b.valid());
    crate::relay::events::push_keeps_valid(b, msg);
    crate::relay::events::replay_is_suffix(b.push(msg), 0);
    crate::relay::events::replay_is_suffix(b.push(msg), 1);
    assert(e.skip(0) =~= e);
    assert(e.skip(1) =~= Seq::<(u64, Seq<char>)>::empty());
}

/// A relay that has just started has no sessions, no channels and no streams; it knows the
/// password, the limit and the administrator that it was given.
pub proof fn relay_starts_empty(
    auth: Seq<char>,
    limit: u64,
    path: Option<Seq<char>>,
    user: Seq<char>,
    pass: Seq<char>,
    sid: Seq<char>,
    t: Seq<char>,
)
    ensures
        ({
            let v = RelayView::fresh(auth, limit, path, user, pass, None);
            &&& v.server_auth == auth && v.max_upload_size == limit && v.admin_path == path
                && v.admin_user == user && v.admin_pass == pass && v.recorder is None
            &&& !v.registry.sessions.contains_key(sid) && v.registry.authenticate(t) is None
            &&& !v.channels.contains_key(sid) && !v.streams.contains_key(sid)
                && !v.pending.contains_key(sid) && !v.admin_sessions.contains_key(t)
                && !v.mcp_streams.contains(sid) && v.connections == 0
        }),
{
}

// ---- uploads ----
/// An upload ends with 413 where more comes than may, with 500 where anything fails, and with 200
/// only where the file was read to its end. Until then it is stored, read, offered and waited for
/// in turn, and what was answered stays so.
pub proof fn upload_is_answered(u: UploadView, n: usize, c: u64, status: u16)
    ensures
        u.phase is Receiving ==> {
            &&& u.received + n > u.limit ==> upload_step(u, UploadEventView::Piece(n)).1
                == UploadActionView::Answer(413)
            &&& u.received + n <= u.limit ==> upload_step(u, UploadEventView::Piece(n)).1
                == UploadActionView::Store && upload_step(
                u,
                UploadEventView::Piece(n),
            ).0.received == u.received + n
            &&& upload_step(u, UploadEventView::IoFailed).1 == UploadActionView::Answer(500)
            &&& upload_step(u, UploadEventView::FileEnd).1 == UploadActionView::Answer(500)
            &&& upload_step(u, UploadEventView::BodyEnd { connection: None }).1
                == UploadActionView::Answer(500)
            &&& upload_step(u, UploadEventView::BodyEnd { connection: Some(c) }).1
                == UploadActionView::ReadChunk(262144)
            &&& upload_step(u, UploadEventView::BodyEnd { connection: Some(c) }).0.connection == c
        },
        u.phase is Sending ==> {
            &&& upload_step(u, UploadEventView::FileEnd).1 == UploadActionView::Answer(200)
            &&& upload_step(u, UploadEventView::IoFailed).1 == UploadActionView::Answer(500)
        },
        u.phase is Offering ==> {
            &&& upload_step(u, UploadEventView::IoFailed).1 == UploadActionView::Answer(500)
            &&& upload_step(u, UploadEventView::FileEnd).1 == UploadActionView::Answer(500)
            &&& upload_step(u, UploadEventView::Offered(Offer::Gone)).1
                == UploadActionView::Answer(500)
            &&& upload_step(u, UploadEventView::Offered(Offer::Full)).1 == UploadActionView::Wait
            &&& upload_step(u, UploadEventView::Offered(Offer::Sent)).1
                == UploadActionView::ReadChunk(262144)
        },
        u.phase == UploadPhaseView::Answered(status) ==> upload_step(
            u,
            UploadEventView::FileEnd,
        ) == (u, UploadActionView::Answer(status)),
{
}

} // verus!
