//! What browsers send, and what they and their agent hear when they come and go.
use vstd::prelude::*;

use crate::handshake::{lemma_all_streams, streams_apart};
use crate::json::JsonView;
use crate::outside::base64_bytes;
use crate::proto::Permission;
use crate::relay::auth::utf8_text;
use crate::relay::queue::delivered;
use crate::relay::recorder::RecordEventView;
use crate::relay::state::{target_streams, BodyView, RelayView, ReplyView};
use crate::relay::ws::{
    browser_leave, browser_send, browser_sse, fan_out_reaches, lemma_fan_out_dom, users_doc,
    BrowserConnectView,
};
use crate::strmap::{has_key, lemma_drop_key_at, put};

verus! {

/// The refusal of a request: a status, and why.
pub open spec fn refusal(status: u16, why: Seq<char>) -> ReplyView {
    ReplyView {
        status,
        body: BodyView::Json(JsonView::object().with("error"@, JsonView::Str(why))),
        set_cookie: None,
    }
}

/// The document of a message.
pub open spec fn doc_of(t: Seq<char>, sid: Seq<char>, payload: JsonView) -> JsonView {
    JsonView::Obj(
        Map::<Seq<char>, JsonView>::empty().insert("type"@, JsonView::Str(t)).insert(
            "session_id"@,
            JsonView::Str(sid),
        ).insert("payload"@, payload),
    )
}

/// What a user sends goes to the agent of the session that the user's token opens, with its type
/// and its payload as they are: a read-only user is refused all but listings, reads and results,
/// and a user with write permission nothing. The session was then heard of, and nothing else
/// changes but what is recorded.
pub proof fn user_message_reaches_agent(
    v: RelayView,
    body: JsonView,
    now: u128,
    token: Seq<char>,
    sid: Seq<char>,
    p: Permission,
    t: Seq<char>,
)
    requires
        body.str_field("token"@) == Some(token),
        v.registry.authenticate(token) == Some((sid, p)),
        body.str_field("type"@) == Some(t),
        t.len() > 0,
    ensures
        ({
            let (w, reply) = browser_send(v, body, now);
            let payload = match body.get("payload"@) {
                Some(x) => x,
                None => JsonView::Null,
            };
            let may = p == Permission::ReadWrite || t == "terminal:output"@ || t
                == "session:users"@ || t == "session:tab_list"@ || t == "fs:result"@ || t
                == "fs:list"@ || t == "fs:read"@ || t == "mcp:result"@ || t == "mcp:exec_result"@
                || t == "mcp:exec_list"@;
            &&& may ==> {
                &&& reply.status == 202 && reply.body is Empty && reply.set_cookie is None
                &&& w.last_activity == v.last_activity.insert(sid, now)
                &&& w.registry == v.registry && w.streams == v.streams && w.pending == v.pending
                &&& w.buffers == v.buffers && w.connections == v.connections
                &&& v.online(sid) ==> {
                    &&& w.channels.dom() == v.channels.dom()
                    &&& w.channels[sid].agent == Some(
                        delivered(v.channels[sid].agent->0, doc_of(t, sid, payload)),
                    )
                    &&& w.channels[sid].browsers == v.channels[sid].browsers
                    &&& w.channels[sid].connection == v.channels[sid].connection
                }
                &&& !v.online(sid) ==> w.channels == v.channels
            }
            &&& !may ==> w == v && reply == refusal(
                403,
                "Read-only users cannot send write-type messages"@,
            )
        }),
{
    let w = browser_send(v, body, now).0;
    if v.online(sid) {
        assert(w.channels.dom() =~= v.channels.dom());
    }
}

/// A request without a token, with a token that opens nothing, or without a type is refused, and
/// nothing changes.
pub proof fn bad_requests_are_refused(v: RelayView, body: JsonView, now: u128)
    ensures
        body.str_field("token"@) is None ==> browser_send(v, body, now) == (
            v,
            refusal(401, "Missing token"@),
        ),
        body.str_field("token"@) matches Some(t) ==> {
            &&& v.registry.authenticate(t) is None ==> browser_send(v, body, now) == (
                v,
                refusal(401, "Invalid token"@),
            )
            &&& v.registry.authenticate(t) is Some && (body.str_field("type"@) is None
                || body.str_field("type"@) == Some(Seq::<char>::empty())) ==> browser_send(
                v,
                body,
                now,
            ) == (v, refusal(400, "Missing message type"@))
        },
{
    reveal_strlit("");
}

/// What a user types is recorded under the session, as the text of its bytes; data that is no
/// base64 is recorded as it is. Nothing else that a user sends is recorded.
pub proof fn input_is_recorded(
    v: RelayView,
    body: JsonView,
    now: u128,
    token: Seq<char>,
    sid: Seq<char>,
    t: Seq<char>,
)
    requires
        body.str_field("token"@) == Some(token),
        v.registry.authenticate(token) == Some((sid, Permission::ReadWrite)),
        body.str_field("type"@) == Some(t),
        t.len() > 0,
        v.recorder is Some,
    ensures
        ({
            let before = v.recorder->0;
            let after = browser_send(v, body, now).0.recorder;
            let data = match body.get("payload"@) {
                Some(x) => x.str_field("data"@),
                None => None,
            };
            &&& after is Some
            &&& t != "terminal:input"@ || data is None ==> after->0 == before
            &&& t == "terminal:input"@ && data is Some ==> {
                &&& base64_bytes(data->0) matches Some(b) ==> after->0 == before.record(
                    sid,
                    RecordEventView::Input(utf8_text(b)),
                )
                &&& base64_bytes(data->0) is None ==> after->0 == before.record(
                    sid,
                    RecordEventView::Input(data->0),
                )
            }
        }),
{
}

/// How a user and the user's permission are named.
pub open spec fn user_payload(user: Seq<char>, p: Permission) -> JsonView {
    JsonView::Obj(
        Map::<Seq<char>, JsonView>::empty().insert("user_id"@, JsonView::Str(user)).insert(
            "permission"@,
            JsonView::Str(
                match p {
                    Permission::ReadWrite => "rw"@,
                    Permission::ReadOnly => "ro"@,
                },
            ),
        ),
    )
}

/// That a session has so many users.
pub open spec fn count_payload(n: nat) -> JsonView {
    JsonView::Obj(
        Map::<Seq<char>, JsonView>::empty().insert("count"@, JsonView::Int(n as int)),
    )
}

proof fn lemma_told(
    streams: Map<Seq<char>, Seq<JsonView>>,
    browsers: Seq<(Seq<char>, Seq<char>)>,
    m: JsonView,
    i: int,
)
    requires
        streams_apart(browsers),
        0 <= i < browsers.len(),
        streams.contains_key(browsers[i].1),
    ensures
        crate::relay::state::fan_out(streams, target_streams(browsers, None), m)[browsers[i].1]
            == delivered(streams[browsers[i].1], m),
        crate::relay::state::fan_out(streams, target_streams(browsers, None), m).contains_key(
            browsers[i].1,
        ),
{
    let ids = target_streams(browsers, None);
    lemma_all_streams(browsers);
    assert forall|a: int, b: int|
        0 <= a < ids.len() && 0 <= b < ids.len() && a != b implies ids[a] != ids[b] by {
        assert(browsers[a].1 != browsers[b].1);
    }
    assert(ids[i] == browsers[i].1);
    assert(ids.contains(browsers[i].1));
    fan_out_reaches(streams, ids, m, browsers[i].1);
}

/// A browser that connects is told its user and its permission. It gets a stream of its own, its
/// session's agent is sent a `session:join` that names the user and the permission, and every
/// browser of the session, the new one too, hears how many they now are.
pub proof fn browser_is_announced(
    v: RelayView,
    token: Seq<char>,
    user: Seq<char>,
    stream: Seq<char>,
    sid: Seq<char>,
    p: Permission,
    i: int,
)
    requires
        v.registry.authenticate(token) == Some((sid, p)),
        v.online(sid),
        streams_apart(v.channels[sid].browsers),
        forall|k: int|
            0 <= k < v.channels[sid].browsers.len() ==> (#[trigger] v.channels[sid].browsers[k]).1
                != stream && v.channels[sid].browsers[k].0 != user,
        0 <= i < v.channels[sid].browsers.len(),
        v.streams.contains_key(v.channels[sid].browsers[i].1),
    ensures
        ({
            let before = v.channels[sid];
            let (w, opened) = browser_sse(v, Some(token), user, stream);
            let n = before.browsers.len();
            let other = before.browsers[i].1;
            let counted = doc_of("session:users"@, sid, count_payload((n + 1) as nat));
            &&& opened == (BrowserConnectView::Open {
                session_id: sid,
                user_id: user,
                stream_id: stream,
                permission: p,
                connected: doc_of("browser:connected"@, sid, user_payload(user, p)),
            })
            &&& w.channels[sid].browsers == before.browsers.push((user, stream))
            &&& w.channels[sid].agent == Some(
                delivered(
                    before.agent->0,
                    doc_of("session:join"@, sid, user_payload(user, p)),
                ),
            )
            &&& w.streams[stream] == seq![counted]
            &&& w.streams[other] == delivered(v.streams[other], counted)
            &&& w.registry == v.registry && w.pending == v.pending && w.recorder == v.recorder
        }),
{
    let before = v.channels[sid].browsers;
    let more = put(before, user, stream);
    assert(!has_key(before, user));
    assert(more =~= before.push((user, stream)));
    let n = before.len();
    assert(streams_apart(more));
    let streams = v.streams.insert(stream, Seq::empty());
    assert(more[n as int].1 == stream);
    assert(more[i].1 == before[i].1);
    let m = users_doc(sid, more.len());
    lemma_told(streams, more, m, n as int);
    lemma_told(streams, more, m, i);
    assert(delivered(Seq::empty(), m) =~= seq![m]);
}

/// A browser whose session has no channel, or no agent that listens, is told the same.
pub proof fn browser_connects_without_agent(
    v: RelayView,
    token: Seq<char>,
    user: Seq<char>,
    stream: Seq<char>,
    sid: Seq<char>,
    p: Permission,
)
    requires
        v.registry.authenticate(token) == Some((sid, p)),
    ensures
        ({
            let (w, opened) = browser_sse(v, Some(token), user, stream);
            &&& opened == (BrowserConnectView::Open {
                session_id: sid,
                user_id: user,
                stream_id: stream,
                permission: p,
                connected: doc_of("browser:connected"@, sid, user_payload(user, p)),
            })
            &&& !v.channels.contains_key(sid) ==> w.channels == v.channels && w.streams
                == v.streams.insert(stream, Seq::empty())
        }),
        browser_sse(v, None, user, stream) == (
            v,
            BrowserConnectView::Refused(refusal(401, "Missing token"@)),
        ),
{
}

/// A browser that leaves is gone: its stream ends, the others stay and hear how many they are left,
/// and the agent is sent a `session:leave` that names the user.
pub proof fn browser_departure_is_announced(
    v: RelayView,
    sid: Seq<char>,
    p: Permission,
    i: int,
    k: int,
)
    requires
        v.online(sid),
        streams_apart(v.channels[sid].browsers),
        forall|a: int, b: int|
            0 <= a < v.channels[sid].browsers.len() && 0 <= b < v.channels[sid].browsers.len() && a
                != b ==> (#[trigger] v.channels[sid].browsers[a]).0 != (
            #[trigger] v.channels[sid].browsers[b]).0,
        0 <= i < v.channels[sid].browsers.len(),
        0 <= k < v.channels[sid].browsers.len(),
        k != i,
        v.streams.contains_key(v.channels[sid].browsers[k].1),
    ensures
        ({
            let before = v.channels[sid];
            let (user, stream) = before.browsers[i];
            let w = browser_leave(v, sid, user, stream, p);
            let other = before.browsers[k].1;
            let left = (before.browsers.len() - 1) as nat;
            &&& !w.streams.contains_key(stream)
            &&& w.channels[sid].browsers == before.browsers.remove(i)
            &&& w.channels[sid].agent == Some(
                delivered(
                    before.agent->0,
                    doc_of("session:leave"@, sid, user_payload(user, p)),
                ),
            )
            &&& w.streams[other] == delivered(
                v.streams[other],
                doc_of("session:users"@, sid, count_payload(left)),
            )
        }),
{
    let before = v.channels[sid].browsers;
    let (user, stream) = before[i];
    lemma_drop_key_at(before, i);
    let rest = before.remove(i);
    assert(streams_apart(rest)) by {
        assert forall|a: int, b: int|
            0 <= a < rest.len() && 0 <= b < rest.len() && a != b implies (#[trigger] rest[a]).1 != (
        #[trigger] rest[b]).1 by {
            let x = if a < i {
                a
            } else {
                a + 1
            };
            let y = if b < i {
                b
            } else {
                b + 1
            };
            assert(rest[a] == before[x]);
            assert(rest[b] == before[y]);
        }
    }
    assert(before[k].1 != before[i].1);
    let q = if k < i {
        k
    } else {
        k - 1
    };
    assert(rest[q] == before[k]);
    let streams = v.streams.remove(stream);
    let m = users_doc(sid, rest.len());
    lemma_told(streams, rest, m, q);
    lemma_fan_out_dom(streams, target_streams(rest, None), m);
}

} // verus!
