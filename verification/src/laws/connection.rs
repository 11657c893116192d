//! How agents reach the relay, register, send and listen.
use axum::http::HeaderMap;
use vstd::prelude::*;
use vstd::utf8::*;

use crate::agent::client::{
    doubled, event_data, events_address, line_data, read_stream, register_doc, registration,
    retry_plan, send_address, NamedTokens, RegisterFailureView, Retry,
};
use crate::agent::home::home;
use crate::json::JsonView;
use crate::laws::admin::token_entry;
use crate::laws::files::{given, split_keeps_a_piece, split_splits_both_sides};
use crate::laws::texts::{prefix_is_stripped, trailing_characters_go};
use crate::outside::header_texts;
use crate::proto::{Permission, TokenType};
use crate::relay::auth::{
    bearer, client, decoded_bytes, first_token, query_token, url_decoded, utf8_text,
};
use crate::relay::limiter::{limit, recent, times_of};
use crate::relay::session::{FreshView, RegisterError, Tokens};
use crate::relay::state::{BodyView, RelayView, ReplyView};
use crate::relay::ws::{
    agent_events, agent_register, agent_send, cached_tokens, counted, desired_id, header_auth,
    request_token, route, wanted_type, AgentStreamView,
};
use crate::text::{parsed_u64, split_on, stripped, trimmed};

verus! {

// ---- addresses ----
/// An agent sends to and listens at the relay's address, however many slashes it ends with, and
/// names its session where it listens.
pub proof fn addresses_are_the_relays(relay: Seq<char>, sid: Seq<char>, n: nat)
    requires
        relay.len() > 0,
        relay.last() != '/',
    ensures
        send_address(relay + Seq::new(n, |i: int| '/')) == relay + "/agent/send"@,
        events_address(relay + Seq::new(n, |i: int| '/'), sid) == relay
            + "/agent/events?session="@ + sid,
{
    trailing_characters_go(relay, '/', n);
}

/// The home directory is the first of the two that the system names, and else the present one.
pub proof fn home_is_the_first_named(h: Seq<char>, u: Option<Seq<char>>, p: Seq<char>)
    ensures
        home(Some(h), u) == h,
        home(None, Some(p)) == p,
        home(None, None) == "."@,
{
}

// ---- registering ----
/// An agent's registration names its key, the type of its tokens, the tokens it comes back with,
/// and the session it asks for.
pub proof fn registration_names_everything(
    key: Option<Seq<char>>,
    token_type: Seq<char>,
    tokens: Option<NamedTokens>,
    sid: Option<Seq<char>>,
)
    ensures
        ({
            let d = register_doc(key, token_type, tokens, sid);
            &&& d.str_field("type"@) == Some("agent:register"@)
            &&& d.str_field("token_type"@) == Some(token_type)
            &&& d.str_field("key"@) == key
            &&& key is None ==> d.get("key"@) == Some(JsonView::Null)
            &&& d.str_field("session_id"@) == sid
            &&& sid is None ==> d.get("session_id"@) is None
            &&& tokens is None ==> d.get("tokens"@) is None
            &&& tokens matches Some(toks) ==> {
                &&& d.get("tokens"@) matches Some(JsonView::Arr(items)) && items.len()
                    == toks.len() && forall|i: int|
                    0 <= i < items.len() ==> (#[trigger] items[i]).str_field("token"@) == Some(
                        toks[i].0,
                    ) && items[i].str_field("permission"@) == Some(toks[i].1)
            }
        }),
{
    reveal_strlit("type");
    reveal_strlit("key");
    reveal_strlit("token_type");
    reveal_strlit("tokens");
    reveal_strlit("session_id");
    assert("type"@.len() != "key"@.len());
    assert("type"@.len() != "token_type"@.len());
    assert("type"@.len() != "tokens"@.len());
    assert("type"@.len() != "session_id"@.len());
    assert("key"@.len() != "token_type"@.len());
    assert("key"@.len() != "tokens"@.len());
    assert("key"@.len() != "session_id"@.len());
    assert("token_type"@.len() != "tokens"@.len());
    assert("token_type"@[0] != "session_id"@[0]);
    assert("tokens"@.len() != "session_id"@.len());
    reveal_strlit("token");
    reveal_strlit("permission");
    assert("token"@.len() != "permission"@.len());
}

/// An agent takes its session and its tokens from a response of the right type; a response without
/// a session, or of another type, is none.
pub proof fn response_is_checked(d: JsonView, sid: Seq<char>)
    ensures
        d.str_field("session_id"@) is None ==> registration(d) == Err::<
            (Seq<char>, NamedTokens),
            RegisterFailureView,
        >(RegisterFailureView::NoSession),
        d.str_field("session_id"@) == Some(sid) && d.str_field("type"@) is Some && d.str_field(
            "type"@,
        )->0 != "agent:registered"@ ==> registration(d) == Err::<
            (Seq<char>, NamedTokens),
            RegisterFailureView,
        >(RegisterFailureView::WrongType(d.str_field("type"@)->0)),
        d.str_field("session_id"@) == Some(sid) && d.str_field("type"@) == Some(
            "agent:registered"@,
        ) && d.get("payload"@) is None ==> registration(d) == Ok::<
            (Seq<char>, NamedTokens),
            RegisterFailureView,
        >((sid, Seq::empty())),
        RegisterFailureView::NoSession.text() == "Missing session_id in register response"@,
        RegisterFailureView::NoToken.text() == "Missing token in tokens array"@,
        RegisterFailureView::NoPermission.text() == "Missing permission in tokens array"@,
        RegisterFailureView::WrongType(sid).text() == "Unexpected register response type: "@ + sid,
{
    reveal_strlit("agent:registered");
}

/// An item of a response without a token, or without a permission, makes it no registration.
pub proof fn response_needs_whole_tokens(
    items: Seq<JsonView>,
    good: JsonView,
    t: Seq<char>,
    p: Seq<char>,
    toks: NamedTokens,
)
    requires
        crate::agent::client::read_named(items) == Ok::<NamedTokens, RegisterFailureView>(toks),
    ensures
        good.str_field("token"@) == Some(t) && good.str_field("permission"@) == Some(p)
            ==> crate::agent::client::read_named(items.push(good)) == Ok::<
            NamedTokens,
            RegisterFailureView,
        >(toks.push((t, p))),
        good.str_field("token"@) is None ==> crate::agent::client::read_named(items.push(good))
            == Err::<NamedTokens, RegisterFailureView>(RegisterFailureView::NoToken),
        good.str_field("token"@) == Some(t) && good.str_field("permission"@) is None
            ==> crate::agent::client::read_named(items.push(good)) == Err::<
            NamedTokens,
            RegisterFailureView,
        >(RegisterFailureView::NoPermission),
        crate::agent::client::read_named(Seq::empty()) == Ok::<NamedTokens, RegisterFailureView>(
            Seq::empty(),
        ),
{
    assert(items.push(good).drop_last() =~= items);
}

/// An agent that fails to connect waits twice as long each time, up to five minutes, and gives up
/// after its last attempt or where another holds the session it asks for.
pub proof fn attempts_are_spaced(
    delay: u64,
    status: Option<u16>,
    attempt: u32,
    max: u32,
)
    ensures
        delay <= 150 ==> doubled(delay) == 2 * delay,
        delay >= 150 ==> doubled(delay) == 300,
        status == Some(409u16) ==> retry_plan(status, attempt, max, delay) == Retry::GiveUp,
        attempt >= max ==> retry_plan(status, attempt, max, delay) == Retry::GiveUp,
        status != Some(409u16) && attempt < max ==> retry_plan(status, attempt, max, delay)
            == Retry::After(delay),
{
}

/// What a registration asks for: the session it names, unless the name is empty; the tokens it
/// brings, if it brings some and each has a permission; and else tokens of the type it names, with
/// write permission where it names none.
pub proof fn registration_asks(body: JsonView, s: Seq<char>)
    ensures
        body.str_field("session_id"@) == Some(s) && s.len() > 0 ==> desired_id(body) == Some(s),
        body.str_field("session_id"@) is None || body.str_field("session_id"@) == Some(
            Seq::<char>::empty(),
        ) ==> desired_id(body) is None,
        body.str_field("token_type"@) == Some("rw"@) || body.str_field("token_type"@) is None
            ==> wanted_type(body) == TokenType::Rw,
        body.str_field("token_type"@) == Some("ro"@) ==> wanted_type(body) == TokenType::Ro,
        body.str_field("token_type"@) == Some("both"@) ==> wanted_type(body) == TokenType::Both,
        body.get("tokens"@) is None ==> cached_tokens(body) is None,
        body.get("tokens"@) == Some(JsonView::Arr(Seq::empty())) ==> cached_tokens(body) is None,
        body.str_field("token_type"@) is Some && body.str_field("token_type"@)->0 != "ro"@
            && body.str_field("token_type"@)->0 != "both"@ ==> wanted_type(body) == TokenType::Rw,
        TokenType::Rw.name() == "rw"@ && TokenType::Ro.name() == "ro"@ && TokenType::Both.name()
            == "both"@,
{
    reveal_strlit("rw");
    reveal_strlit("ro");
    reveal_strlit("both");
    assert("rw"@[1] != "ro"@[1]);
    assert("rw"@.len() != "both"@.len());
    assert("ro"@.len() != "both"@.len());
}

/// A token that a registration brings is read with the permission that it names; one that names
/// another permission is none.
pub proof fn brought_tokens_are_read(
    items: Seq<JsonView>,
    toks: Tokens,
    item: JsonView,
    t: Seq<char>,
)
    requires
        crate::relay::ws::read_tokens(items) == Some(toks),
        item.str_field("token"@) == Some(t),
    ensures
        item.str_field("permission"@) == Some("rw"@) ==> crate::relay::ws::read_tokens(
            items.push(item),
        ) == Some(toks.push((t, Permission::ReadWrite))),
        item.str_field("permission"@) == Some("ro"@) ==> crate::relay::ws::read_tokens(
            items.push(item),
        ) == Some(toks.push((t, Permission::ReadOnly))),
        item.str_field("permission"@) is None || item.str_field("permission"@) is Some
            && item.str_field("permission"@)->0 != "rw"@ && item.str_field("permission"@)->0
            != "ro"@ ==> crate::relay::ws::read_tokens(items.push(item)) is None,
        crate::relay::ws::read_tokens(Seq::empty()) == Some(Seq::<(Seq<char>, Permission)>::empty()),
        items.len() > 0 ==> forall|body: JsonView| #[trigger]
            body.get("tokens"@) == Some(JsonView::Arr(items)) ==> cached_tokens(body) == Some(
                toks,
            ),
{
    reveal_strlit("rw");
    reveal_strlit("ro");
    assert("rw"@[1] != "ro"@[1]);
    assert(items.push(item).drop_last() =~= items);
}

/// Whether a reply is a text with this status.
pub open spec fn says_text(r: ReplyView, status: u16, text: Seq<char>) -> bool {
    r.status == status && r.body == BodyView::Text(text)
}

/// A registration within the limits enters the registry as it asks: with the tokens it brings, or
/// else with fresh ones. The reply names the session and each of its tokens with its permission,
/// and the session has a channel from then on, the one it had if it had one. Nothing else changes.
pub proof fn agent_is_registered(
    v: RelayView,
    who: Seq<char>,
    body: JsonView,
    now: u128,
    fresh: FreshView,
    other: Seq<char>,
)
    requires
        counted(v, who, 10, now).1,
        v.registry.sessions.len() < 1000,
    ensures
        ({
            let (w, r) = agent_register(v, who, body, now, fresh);
            let (registry, result) = match cached_tokens(body) {
                Some(toks) => v.registry.register_existing(
                    toks,
                    desired_id(body),
                    fresh.session_id,
                ),
                None => v.registry.register(
                    body.str_field("key"@),
                    wanted_type(body).name(),
                    desired_id(body),
                    fresh,
                ),
            };
            &&& w.streams == v.streams && w.pending == v.pending && w.server_auth == v.server_auth
                && w.recorder == v.recorder
            &&& result matches Ok((sid, toks)) ==> {
                &&& w.registry == registry
                &&& w.channels.contains_key(sid)
                &&& v.channels.contains_key(sid) ==> w.channels == v.channels
                &&& !v.channels.contains_key(sid) ==> w.channels[sid].agent is None
                    && w.channels[sid].browsers.len() == 0
                &&& other != sid ==> w.channels.contains_key(other) == v.channels.contains_key(
                    other,
                ) && (v.channels.contains_key(other) ==> w.channels[other] == v.channels[other])
                &&& r.status == 200
                &&& r.body matches BodyView::Json(d) && {
                    &&& d.str_field("type"@) == Some("agent:registered"@)
                    &&& d.str_field("session_id"@) == Some(sid)
                    &&& d.at("payload"@).get("tokens"@) matches Some(JsonView::Arr(items))
                        && items.len() == toks.len() && forall|i: int|
                        0 <= i < items.len() ==> #[trigger] items[i] == token_entry(
                            toks[i].0,
                            toks[i].1,
                        )
                }
            }
            &&& result == Err::<(Seq<char>, Tokens), RegisterError>(RegisterError::IdTaken)
                ==> w.registry == v.registry && w.channels == v.channels && says_text(
                r,
                409,
                "session_id already in use"@,
            )
            &&& result == Err::<(Seq<char>, Tokens), RegisterError>(RegisterError::InvalidId)
                ==> w.registry == v.registry && w.channels == v.channels && says_text(
                r,
                400,
                "invalid session_id (5-20 alphanumeric)"@,
            )
        }),
{
    reveal_strlit("type");
    reveal_strlit("session_id");
    reveal_strlit("payload");
    assert("type"@.len() != "session_id"@.len());
    assert("type"@.len() != "payload"@.len());
    assert("session_id"@.len() != "payload"@.len());
    reveal_strlit("token");
    reveal_strlit("permission");
    assert("token"@.len() != "permission"@.len());
}

/// A client registers at most ten times a minute, and there are at most a thousand sessions.
pub proof fn registrations_are_limited(
    v: RelayView,
    who: Seq<char>,
    body: JsonView,
    now: u128,
    fresh: FreshView,
)
    ensures
        !counted(v, who, 10, now).1 ==> says_text(
            agent_register(v, who, body, now, fresh).1,
            429,
            "Too many registrations from this address"@,
        ) && agent_register(v, who, body, now, fresh).0.registry == v.registry,
        counted(v, who, 10, now).1 && v.registry.sessions.len() >= 1000 ==> says_text(
            agent_register(v, who, body, now, fresh).1,
            503,
            "Session limit reached"@,
        ) && agent_register(v, who, body, now, fresh).0.registry == v.registry,
{
}

proof fn lemma_recent_all(times: Seq<u128>, window: nat, now: u128)
    ensures
        (forall|i: int| 0 <= i < times.len() ==> now < #[trigger] times[i] + window) ==> recent(
            times,
            window,
            now,
        ) == times,
        (forall|i: int| 0 <= i < times.len() ==> now >= #[trigger] times[i] + window) ==> recent(
            times,
            window,
            now,
        ).len() == 0,
    decreases times.len(),
{
    reveal(Seq::filter);
    if times.len() > 0 {
        let init = times.drop_last();
        lemma_recent_all(init, window, now);
        if forall|i: int| 0 <= i < times.len() ==> now < #[trigger] times[i] + window {
            assert forall|i: int| 0 <= i < init.len() implies now < #[trigger] init[i] + window by {
                assert(now < times[i] + window);
            }
            assert(now < times[times.len() - 1] + window);
            assert(init.push(times.last()) =~= times);
        }
        if forall|i: int| 0 <= i < times.len() ==> now >= #[trigger] times[i] + window {
            assert forall|i: int| 0 <= i < init.len() implies now >= #[trigger] init[i]
                + window by {
                assert(now >= times[i] + window);
            }
            assert(now >= times[times.len() - 1] + window);
        }
    }
}

/// A client that was let through so often within the last minute is not let through; one whose
/// times all lie a minute back, or that is not known, is. It is counted then, and others are not.
pub proof fn minute_is_counted(
    v: RelayView,
    who: Seq<char>,
    max: nat,
    now: u128,
    other: Seq<char>,
)
    requires
        max > 0,
        other != who,
    ensures
        ({
            let (w, allowed) = counted(v, who, max, now);
            &&& !v.limiter.contains_key(who) ==> allowed && w.limiter[who] == seq![now]
            &&& v.limiter.contains_key(who) ==> {
                let times = v.limiter[who];
                &&& (forall|i: int|
                    0 <= i < times.len() ==> now >= #[trigger] times[i] + 60_000_000_000)
                    ==> allowed && w.limiter[who] == seq![now]
                &&& (forall|i: int|
                    0 <= i < times.len() ==> now < #[trigger] times[i] + 60_000_000_000)
                    ==> allowed == (times.len() < max) && w.limiter[who] == if allowed {
                    times.push(now)
                } else {
                    times
                }
            }
            &&& w.limiter.contains_key(other) == v.limiter.contains_key(other)
            &&& v.limiter.contains_key(other) ==> w.limiter[other] == v.limiter[other]
            &&& w == RelayView { limiter: w.limiter, ..v }
        }),
{
    let times = times_of(v.limiter, who);
    let window = 60_000_000_000nat;
    lemma_recent_all(times, window, now);
    let none = Seq::<u128>::empty();
    let kept = recent(times, window, now);
    if kept.len() == 0 {
        assert(kept.push(now) =~= seq![now]);
    }
}

/// The same holds of any limit and any window.
pub proof fn window_is_counted(
    m: Map<Seq<char>, Seq<u128>>,
    key: Seq<char>,
    max: nat,
    window: nat,
    now: u128,
)
    requires
        max > 0,
        m.contains_key(key),
    ensures
        (forall|i: int| 0 <= i < m[key].len() ==> now >= #[trigger] m[key][i] + window) ==> limit(
            m,
            key,
            max,
            window,
            now,
        ).1,
        (forall|i: int| 0 <= i < m[key].len() ==> now < #[trigger] m[key][i] + window) ==> limit(
            m,
            key,
            max,
            window,
            now,
        ).1 == (m[key].len() < max),
{
    lemma_recent_all(m[key], window, now);
}

// ---- sending ----
/// What an agent sends under a known session is routed to that session, and the session was then
/// heard of. Where there is a server password, an agent whose session is not known needs it, in its
/// header or in its message. A message without a session is refused.
pub proof fn agent_message_is_routed(
    v: RelayView,
    who: Seq<char>,
    auth: Seq<char>,
    body: JsonView,
    now: u128,
    fresh: FreshView,
    sid: Seq<char>,
)
    requires
        body.str_field("type"@) != Some("agent:register"@),
    ensures
        ({
            let (w, r, answer) = agent_send(v, who, auth, body, now, fresh);
            let right = v.server_auth.len() == 0 || auth == v.server_auth || body.str_field(
                "auth"@,
            ) == Some(v.server_auth);
            let heard = RelayView { last_activity: v.last_activity.insert(sid, now), ..v };
            &&& body.str_field("session_id"@) == Some(sid) && sid.len() > 0
                && (v.channels.contains_key(sid) || right) ==> {
                &&& (w, answer) == route(heard, sid, body)
                &&& r.status == 200 && r.body is Empty
            }
            &&& body.str_field("session_id"@) == Some(sid) && sid.len() > 0
                && !v.channels.contains_key(sid) && !right ==> w == v && answer is None
                && says_text(r, 401, "Invalid server password"@)
            &&& given(body, "session_id"@, Seq::empty()).len() == 0 ==> w == v && answer is None
                && if right {
                says_text(r, 400, "Missing session_id"@)
            } else {
                says_text(r, 401, "Invalid server password"@)
            }
        }),
{
    reveal_strlit("");
    reveal_strlit("agent:register");
    assert(""@.len() != "agent:register"@.len());
}

// ---- listening ----
/// An agent that listens gets a queue of its own, empty at first, under a new number; its browsers
/// stay. It is sent again what it missed after the event that it names. A request that names no
/// session, or none that is known, or that comes too often, is refused.
pub proof fn agent_listens(
    v: RelayView,
    who: Seq<char>,
    session: Option<Seq<char>>,
    last: Option<Seq<char>>,
    now: u128,
    other: Seq<char>,
)
    ensures
        ({
            let (w, s) = agent_events(v, who, session, last, now);
            let in_time = counted(v, who, 30, now).1;
            &&& w.registry == v.registry && w.streams == v.streams && w.pending == v.pending
            &&& !in_time ==> w.channels == v.channels && (s matches AgentStreamView::Refused(r)
                && r.status == 429)
            &&& in_time && (session is None || (session->0).len() == 0) ==> w.channels
                == v.channels && (s matches AgentStreamView::Refused(r) && r.status == 400)
            &&& in_time && session is Some && (session->0).len() > 0 && !v.channels.contains_key(
                session->0,
            ) ==> w.channels == v.channels && (s matches AgentStreamView::Refused(r) && r.status
                == 404)
            &&& in_time && session is Some && (session->0).len() > 0 && v.channels.contains_key(
                session->0,
            ) ==> {
                let sid = session->0;
                &&& w.channels.contains_key(sid)
                &&& w.channels[sid].agent == Some(Seq::<JsonView>::empty())
                &&& w.channels[sid].browsers == v.channels[sid].browsers
                &&& other != sid && v.channels.contains_key(other) ==> w.channels[other]
                    == v.channels[other]
                &&& s matches AgentStreamView::Open { session_id, connection, missed } && {
                    &&& session_id == sid
                    &&& w.channels[sid].connection == connection
                    &&& v.connections < u64::MAX ==> connection == v.connections + 1
                    &&& last is None ==> missed.len() == 0
                    &&& last matches Some(t) ==> {
                        &&& parsed_u64(t) is None ==> missed.len() == 0
                        &&& parsed_u64(t) is Some && v.buffers.contains_key(sid) ==> missed
                            == v.buffers[sid].replay_from(parsed_u64(t)->0)
                        &&& !v.buffers.contains_key(sid) ==> missed.len() == 0
                    }
                }
            }
        }),
{
    reveal(Seq::filter);
}

proof fn lemma_no_end(text: Seq<char>)
    requires
        forall|i: int| 0 <= i < text.len() - 1 ==> !(#[trigger] text[i] == '\n' && text[i + 1]
            == '\n'),
    ensures
        read_stream(Seq::empty(), text) == (Seq::<Seq<char>>::empty(), text),
    decreases text.len(),
{
    if text.len() > 0 {
        let init = text.drop_last();
        assert forall|i: int| 0 <= i < init.len() - 1 implies !(#[trigger] init[i] == '\n'
            && init[i + 1] == '\n') by {
            assert(text[i] == init[i] && text[i + 1] == init[i + 1]);
        }
        lemma_no_end(init);
        assert(init.push(text.last()) =~= text);
        if text.len() >= 2 {
            assert(!(text[text.len() - 2] == '\n' && text[text.len() - 2 + 1] == '\n'));
        }
    } else {
        assert(text =~= Seq::<char>::empty());
    }
}

proof fn lemma_event(event: Seq<char>)
    requires
        event.len() > 0,
        event.last() != '\n',
        forall|i: int| 0 <= i < event.len() - 1 ==> !(#[trigger] event[i] == '\n' && event[i + 1]
            == '\n'),
    ensures
        read_stream(Seq::empty(), event + seq!['\n', '\n']) == (
            event_data(event),
            Seq::<char>::empty(),
        ),
{
    let one = event.push('\n');
    let all = event + seq!['\n', '\n'];
    assert forall|i: int| 0 <= i < one.len() - 1 implies !(#[trigger] one[i] == '\n' && one[i + 1]
        == '\n') by {
        if i < event.len() - 1 {
            assert(event[i] == one[i] && event[i + 1] == one[i + 1]);
        }
    }
    lemma_no_end(one);
    assert(all.drop_last() =~= one);
    assert(one.push('\n') =~= all);
    assert(all.take(all.len() - 2) =~= event);
    assert(Seq::<Seq<char>>::empty() + event_data(event) =~= event_data(event));
}

/// What the relay sends as an event is what the agent reads: the data of the event, whatever line
/// goes before it, and nothing of an event without data.
pub proof fn event_is_read(x: Seq<char>, line: Seq<char>)
    requires
        !x.contains('\n'),
        x.len() > 0 ==> !crate::text::is_space(x[0]) && !crate::text::is_space(x.last()),
        x.len() > 0,
        !line.contains('\n'),
        line.len() > 0,
        stripped(line, "data:"@) is None,
    ensures
        read_stream(Seq::empty(), "data: "@ + x + seq!['\n', '\n']) == (
            seq![x],
            Seq::<char>::empty(),
        ),
        read_stream(Seq::empty(), line + seq!['\n'] + ("data: "@ + x) + seq!['\n', '\n']) == (
            seq![x],
            Seq::<char>::empty(),
        ),
        read_stream(Seq::empty(), line + seq!['\n', '\n']) == (
            Seq::<Seq<char>>::empty(),
            Seq::<char>::empty(),
        ),
{
    reveal_strlit("data: ");
    reveal_strlit("data:");
    let d = "data: "@ + x;
    assert(!d.contains('\n')) by {
        if d.contains('\n') {
            let i = choose|i: int| 0 <= i < d.len() && d[i] == '\n';
            if i >= 6 {
                assert(x[i - 6] == '\n');
                assert(x.contains('\n'));
            }
        }
    }
    let none = Seq::<char>::empty();
    // the data of a line
    assert(d =~= "data:"@ + (seq![' '] + x));
    prefix_is_stripped("data:"@, seq![' '] + x, d);
    crate::laws::texts::trimming_takes_the_space(seq![' '], x, none);
    assert(seq![' '] + x + none =~= seq![' '] + x);
    assert(d.last() == x.last());
    lemma_without(d);
    lemma_without(line);
    // one line
    split_keeps_a_piece(d, '\n');
    lemma_line_data(Seq::empty(), d);
    assert(Seq::<Seq<char>>::empty().push(d) =~= seq![d]);
    assert(Seq::<Seq<char>>::empty().push(x) =~= seq![x]);
    assert(x.contains(x[x.len() - 1]));
    lemma_event(d);
    // another line before it
    let both = line + seq!['\n'] + d;
    split_keeps_a_piece(line, '\n');
    split_splits_both_sides(line, '\n', d);
    lemma_line_data(Seq::empty(), line);
    assert(Seq::<Seq<char>>::empty().push(line) =~= seq![line]);
    lemma_line_data(seq![line], d);
    assert(seq![line] + seq![d] =~= seq![line].push(d));
    assert forall|i: int| 0 <= i < both.len() - 1 implies !(#[trigger] both[i] == '\n' && both[i
        + 1] == '\n') by {
        if i < line.len() - 1 {
            assert(both[i] == line[i] && line.contains(line[i]));
        } else if i == line.len() - 1 {
            assert(both[i] == line[i] && line.contains(line[i]));
        } else if i == line.len() {
            assert(both[i + 1] == d[0]);
        } else {
            assert(both[i] == d[i - line.len() - 1]);
            assert(d.contains(d[i - line.len() - 1]));
        }
    }
    assert(both.last() == d.last());
    lemma_event(both);
    assert(line + seq!['\n'] + ("data: "@ + x) + seq!['\n', '\n'] =~= both + seq!['\n', '\n']);
    // no data
    assert(line.contains(line[line.len() - 1]));
    lemma_event(line);
}

proof fn lemma_without(s: Seq<char>)
    requires
        !s.contains('\n'),
    ensures
        forall|i: int| 0 <= i < s.len() - 1 ==> !(#[trigger] s[i] == '\n' && s[i + 1] == '\n'),
{
    assert forall|i: int| 0 <= i < s.len() - 1 implies !(#[trigger] s[i] == '\n' && s[i + 1]
        == '\n') by {
        assert(s.contains(s[i]));
    }
}

proof fn lemma_line_data(lines: Seq<Seq<char>>, line: Seq<char>)
    ensures
        line_data(lines.push(line)) == match stripped(line, "data:"@) {
            Some(d) => line_data(lines).push(trimmed(d)),
            None => line_data(lines),
        },
        line_data(Seq::empty()) == Seq::<Seq<char>>::empty(),
{
    assert(lines.push(line).drop_last() =~= lines);
}

// ---- what requests carry ----
/// Bytes that are the UTF-8 of a text are read as that text.
pub proof fn text_is_read_back(s: Seq<char>)
    ensures
        utf8_text(encode_utf8(s)) == s,
{
    encode_utf8_valid_utf8(s);
    encode_utf8_decode_utf8(s);
}

/// The value of a hexadecimal digit.
pub open spec fn hex_of(n: int) -> Seq<u8> {
    if n < 10 {
        seq![(48 + n) as u8]
    } else {
        seq![(97 + n - 10) as u8, (65 + n - 10) as u8]
    }
}

/// In a query, a percent sign and two hexadecimal digits of either case stand for a byte, and a
/// plus sign for a blank; every other byte stands for itself.
pub proof fn query_is_decoded(hi: u8, lo: u8, i: int, j: int, b: u8, rest: Seq<u8>)
    requires
        hi < 16,
        lo < 16,
        0 <= i < hex_of(hi as int).len(),
        0 <= j < hex_of(lo as int).len(),
    ensures
        decoded_bytes(seq![37u8, hex_of(hi as int)[i], hex_of(lo as int)[j]] + rest) == seq![
            (hi * 16 + lo) as u8,
        ] + decoded_bytes(rest),
        b != 37 && b != 43 ==> decoded_bytes(seq![b] + rest) == seq![b] + decoded_bytes(rest),
        decoded_bytes(seq![43u8] + rest) == seq![32u8] + decoded_bytes(rest),
        decoded_bytes(Seq::<u8>::empty()) == Seq::<u8>::empty(),
        rest.len() < 2 ==> decoded_bytes(seq![37u8] + rest) == seq![37u8] + decoded_bytes(rest),
        rest.len() >= 2 && !(48 <= rest[0] <= 57 || 65 <= rest[0] <= 70 || 97 <= rest[0] <= 102)
            ==> decoded_bytes(seq![37u8] + rest) == seq![37u8] + decoded_bytes(rest),
        rest.len() >= 2 && !(48 <= rest[1] <= 57 || 65 <= rest[1] <= 70 || 97 <= rest[1] <= 102)
            ==> decoded_bytes(seq![37u8] + rest) == seq![37u8] + decoded_bytes(rest),
{
    let all = seq![37u8, hex_of(hi as int)[i], hex_of(lo as int)[j]] + rest;
    assert(all.skip(3) =~= rest);
    assert((seq![b] + rest).skip(1) =~= rest);
    assert((seq![43u8] + rest).skip(1) =~= rest);
    let p = seq![37u8] + rest;
    assert(p.skip(1) =~= rest);
    if rest.len() >= 2 {
        assert(p[1] == rest[0] && p[2] == rest[1]);
    }
}

/// The token of a query is the decoded value of its first pair named `token`.
pub proof fn query_names_the_token(x: Seq<char>, pair: Seq<char>, rest: Seq<char>)
    requires
        !x.contains('&'),
        !pair.contains('&'),
        stripped(pair, "token="@) is None,
    ensures
        query_token("token="@ + x) == Some(url_decoded(x)),
        query_token("token="@ + x + seq!['&'] + rest) == Some(url_decoded(x)),
        query_token(pair + seq!['&'] + ("token="@ + x)) == Some(url_decoded(x)),
        query_token(pair) is None,
{
    reveal_strlit("token=");
    let t = "token="@ + x;
    assert(!t.contains('&')) by {
        if t.contains('&') {
            let i = choose|i: int| 0 <= i < t.len() && t[i] == '&';
            if i >= 6 {
                assert(x[i - 6] == '&');
                assert(x.contains('&'));
            }
        }
    }
    prefix_is_stripped("token="@, x, t);
    split_keeps_a_piece(t, '&');
    split_keeps_a_piece(pair, '&');
    split_splits_both_sides(t, '&', rest);
    split_splits_both_sides(pair, '&', t);
    assert(seq![t][0] == t);
    let a = seq![t] + split_on(rest, '&');
    assert(a[0] == t);
    let b = seq![pair] + seq![t];
    assert(b[0] == pair);
    assert(b.skip(1) =~= seq![t]);
    assert(first_token(seq![t]) == Some(x));
    assert(seq![pair][0] == pair);
    assert(seq![pair].skip(1) =~= Seq::<Seq<char>>::empty());
    assert(first_token(Seq::<Seq<char>>::empty()) is None);
    assert("token="@ + x + seq!['&'] + rest =~= t + seq!['&'] + rest);
}

/// A bearer token is what follows the word, if something does.
pub proof fn bearer_token_is_read(t: Seq<char>, s: Seq<char>)
    ensures
        t.len() > 0 ==> bearer("Bearer "@ + t) == Some(t),
        bearer("Bearer "@) is None,
        stripped(s, "Bearer "@) is None ==> bearer(s) is None,
{
    prefix_is_stripped("Bearer "@, t, s);
    prefix_is_stripped("Bearer "@, Seq::empty(), s);
    assert("Bearer "@ + Seq::<char>::empty() =~= "Bearer "@);
}

/// The token of a request is the one of its `Authorization` header, or else the one of its query;
/// its client is the address that it was forwarded for.
pub proof fn request_carries_its_token(
    headers: HeaderMap,
    params: Map<Seq<char>, Seq<char>>,
    t: Seq<char>,
)
    ensures
        t.len() > 0 && header_texts(headers).contains_key("authorization"@) && header_texts(
            headers,
        )["authorization"@] == "Bearer "@ + t ==> request_token(headers, params) == Some(t)
            && header_auth(headers) == t,
        !header_texts(headers).contains_key("authorization"@) ==> {
            &&& params.contains_key("token"@) ==> request_token(headers, params) == Some(
                params["token"@],
            )
            &&& !params.contains_key("token"@) ==> request_token(headers, params) is None
            &&& header_auth(headers).len() == 0
        },
        header_texts(headers).contains_key("x-forwarded-for"@) ==> client(headers)
            == header_texts(headers)["x-forwarded-for"@],
        !header_texts(headers).contains_key("x-forwarded-for"@) ==> client(headers)
            == "unknown"@,
{
    bearer_token_is_read(t, t);
    prefix_is_stripped("Bearer "@, t, t);
    reveal_strlit("");
}

} // verus!
