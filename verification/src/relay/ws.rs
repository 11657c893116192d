//! The routes of agents and browsers: registering, sending and receiving.
use axum::http::HeaderMap;
use vstd::prelude::*;

use crate::clock::NANOS_PER_SEC;
use crate::json::{items_view, lemma_items_view, Json, JsonView};
use crate::outside::{base64_bytes, header_text, is_uuid, new_uuid};
use crate::proto::{
    message, read_only_type, requires_write, Message, MessageView, Permission, TokenType,
};
use crate::relay::admin::{perm_name, perm_str};
use crate::relay::auth::{
    client, client_address, constant_time_eq, extract_token_from_headers_or_query, header,
    header_bearer,
};
use crate::relay::events::{events_view, Events};
use crate::relay::limiter::limit;
use crate::relay::queue::{delivered, MessageQueue};
use crate::relay::recorder::{decode_terminal_data, terminal_data, RecordEvent, RecordEventView};
use crate::relay::session::{
    tokens_view, FreshIds, FreshView, RegisterError, Registered, RegistryView, Tokens,
};
use crate::relay::state::{
    bare, fan_out, json_reply, meant_for, target_streams, text_reply, ChannelMap, ChannelView,
    RelayView, Reply, ReplyView, SharedState, MAX_SESSIONS,
};
use crate::seqs::lemma_filter;
use crate::strmap::{drop_key, has_key, put, StrMap};
use crate::text::{
    join2, opt_str, opt_text, parse_u64, parsed_u64, str_eq, strip_prefix, stripped,
};

verus! {

/// The result that a pending request was waiting for.
pub struct Answer {
    pub request_id: String,
    pub result: Json,
}

pub open spec fn answer_view(a: Option<Answer>) -> Option<(Seq<char>, JsonView)> {
    match a {
        Some(a) => Some((a.request_id@, a.result@)),
        None => None,
    }
}

/// The types of agent messages that browsers get.
pub open spec fn broadcast_type(t: Seq<char>) -> bool {
    ||| t == "session:users"@
    ||| t == "session:tab_list"@
    ||| t == "session:tab_switched"@
    ||| t == "terminal:output"@
    ||| t == "fs:result"@
    ||| t == "fs:mkdir"@
    ||| t == "mcp:result"@
}

fn is_broadcast_type(t: &str) -> (r: bool)
    ensures
        r == broadcast_type(t@),
{
    str_eq(t, "session:users") || str_eq(t, "session:tab_list") || str_eq(t, "session:tab_switched")
        || str_eq(t, "terminal:output") || str_eq(t, "fs:result") || str_eq(t, "fs:mkdir")
        || str_eq(t, "mcp:result")
}

/// The outcome of a command, as a waiting request gets it.
pub open spec fn command_result(payload: JsonView) -> JsonView {
    JsonView::object().with_str("stdout"@, payload.str_or("stdout"@, ""@)).with_str(
        "stderr"@,
        payload.str_or("stderr"@, ""@),
    ).with(
        "exit_code"@,
        JsonView::Int(
            match payload.i64_field("exit_code"@) {
                Some(n) => n as int,
                None => 0,
            },
        ),
    )
}

/// The outcome of a file operation, as a waiting request gets it.
pub open spec fn file_result(payload: JsonView) -> JsonView {
    JsonView::object().with(
        "success"@,
        JsonView::Bool(payload.bool_field("success"@) == Some(true)),
    ).with_str("error"@, payload.str_or("error"@, ""@)).with_str(
        "content"@,
        payload.str_or("content"@, ""@),
    ).with("entries"@, payload.at("entries"@)).with_str(
        "path"@,
        payload.str_or("path"@, ""@),
    ).with_str("new_path"@, payload.str_or("new_path"@, ""@))
}

/// What a waiting request gets from a message, if the message is a result.
pub open spec fn result_of(m: MessageView) -> Option<JsonView> {
    if m.msg_type == "mcp:exec_result"@ {
        Some(m.payload)
    } else if m.msg_type == "mcp:result"@ {
        Some(command_result(m.payload))
    } else if m.msg_type == "fs:result"@ {
        Some(file_result(m.payload))
    } else {
        None
    }
}

fn result_for(m: &Message) -> (r: Option<Json>)
    ensures
        match r {
            Some(j) => result_of(m@) == Some(j@),
            None => result_of(m@) is None,
        },
{
    let t = m.msg_type.as_str();
    let p = &m.payload;
    if str_eq(t, "mcp:exec_result") {
        Some(p.copy())
    } else if str_eq(t, "mcp:result") {
        let exit_code: i64 = match p.i64_field("exit_code") {
            Some(n) => n,
            None => 0,
        };
        Some(
            Json::object().with_str("stdout", p.str_or("stdout", "")).with_str(
                "stderr",
                p.str_or("stderr", ""),
            ).with("exit_code", Json::Int(exit_code as i128)),
        )
    } else if str_eq(t, "fs:result") {
        let success = match p.bool_field("success") {
            Some(b) => b,
            None => false,
        };
        Some(
            Json::object().with("success", Json::Bool(success)).with_str(
                "error",
                p.str_or("error", ""),
            ).with_str("content", p.str_or("content", "")).with(
                "entries",
                p.at("entries"),
            ).with_str("path", p.str_or("path", "")).with_str(
                "new_path",
                p.str_or("new_path", ""),
            ),
        )
    } else {
        None
    }
}

/// The relay after it recorded an event of a session, if it records.
pub open spec fn recorded(v: RelayView, sid: Seq<char>, ev: RecordEventView) -> RelayView {
    match v.recorder {
        Some(r) => RelayView { recorder: Some(r.record(sid, ev)), ..v },
        None => v,
    }
}

fn record(state: &mut SharedState, session_id: &str, ev: RecordEvent)
    ensures
        final(state)@ == recorded(old(state)@, session_id@, ev@),
{
    let mut recorder: Option<crate::relay::recorder::Recorder> = None;
    std::mem::swap(&mut recorder, &mut state.recorder);
    state.recorder = match recorder {
        Some(r) => {
            let mut r = r;
            r.record(session_id, ev);
            Some(r)
        },
        None => None,
    };
}

/// What the data of a terminal message says.
pub open spec fn typed(data: Seq<char>) -> Seq<char> {
    terminal_data(base64_bytes(data), data)
}

/// What the relay does with a document from the agent of a session. Terminal output is recorded; a
/// message for browsers is passed on to them, unless it answers a request; a result is handed to
/// the request that waits for it, which then waits no more.
pub open spec fn route(v: RelayView, sid: Seq<char>, doc: JsonView) -> (
    RelayView,
    Option<(Seq<char>, JsonView)>,
) {
    match MessageView::of(doc) {
        None => (v, None),
        Some(m) => {
            let v1 = match m.payload.str_field("data"@) {
                Some(data) => if m.msg_type == "terminal:output"@ {
                    recorded(v, sid, RecordEventView::Output(typed(data)))
                } else {
                    v
                },
                None => v,
            };
            let v2 = if broadcast_type(m.msg_type) && m.payload.get("_mcp_request_id"@) is None {
                v1.to_browsers(sid, m.payload.str_field("_target_user_id"@), doc)
            } else {
                v1
            };
            match (result_of(m), m.payload.str_field("_mcp_request_id"@)) {
                (Some(result), Some(id)) => if v2.pending.contains_key(id) {
                    (RelayView { pending: v2.pending.remove(id), ..v2 }, Some((id, result)))
                } else {
                    (v2, None)
                },
                _ => (v2, None),
            }
        },
    }
}

/// Routes a document from the agent of a session, and returns the answer to a pending request that
/// it holds.
pub fn route_agent_message(state: &mut SharedState, session_id: &str, doc: &Json) -> (r: Option<
    Answer,
>)
    ensures
        (final(state)@, answer_view(r)) == route(old(state)@, session_id@, doc@),
{
    let m = match Message::from_json(doc) {
        Some(m) => m,
        None => {
            return None;
        },
    };
    if str_eq(m.msg_type.as_str(), "terminal:output") {
        if let Some(data) = m.payload.str_field("data") {
            record(state, session_id, RecordEvent::Output(decode_terminal_data(data)));
        }
    }
    if is_broadcast_type(m.msg_type.as_str()) && m.payload.get("_mcp_request_id").is_none() {
        state.send_to_browsers(session_id, m.payload.str_field("_target_user_id"), doc);
    }
    let ghost v2 = state@;
    if let Some(result) = result_for(&m) {
        if let Some(id) = m.payload.str_field("_mcp_request_id") {
            match state.pending_mcp.remove(id) {
                Some(_) => {
                    return Some(Answer { request_id: id.to_owned(), result });
                },
                None => {
                    assert(state@ =~= v2);
                },
            }
        }
    }
    None
}

// ---- agents that register ----
/// One token of a registration that brings its tokens.
pub open spec fn read_token(j: JsonView) -> Option<(Seq<char>, Permission)> {
    match (j.str_field("token"@), j.str_field("permission"@)) {
        (Some(t), Some(p)) => if p == "rw"@ {
            Some((t, Permission::ReadWrite))
        } else if p == "ro"@ {
            Some((t, Permission::ReadOnly))
        } else {
            None
        },
        _ => None,
    }
}

/// The tokens of a registration, if each of the items is one.
pub open spec fn read_tokens(items: Seq<JsonView>) -> Option<Tokens>
    decreases items.len(),
{
    if items.len() == 0 {
        Some(Seq::empty())
    } else {
        match (read_tokens(items.drop_last()), read_token(items.last())) {
            (Some(toks), Some(t)) => Some(toks.push(t)),
            _ => None,
        }
    }
}

/// The tokens that an agent brings along.
pub open spec fn cached_tokens(body: JsonView) -> Option<Tokens> {
    match body.get("tokens"@) {
        Some(j) => match j.as_arr() {
            Some(items) => if items.len() == 0 {
                None
            } else {
                read_tokens(items)
            },
            None => None,
        },
        None => None,
    }
}

fn token_of(j: &Json) -> (r: Option<(String, Permission)>)
    ensures
        match r {
            Some((t, p)) => read_token(j@) == Some((t@, p)),
            None => read_token(j@) is None,
        },
{
    match (j.str_field("token"), j.str_field("permission")) {
        (Some(t), Some(p)) => if str_eq(p, "rw") {
            Some((t.to_owned(), Permission::ReadWrite))
        } else if str_eq(p, "ro") {
            Some((t.to_owned(), Permission::ReadOnly))
        } else {
            None
        },
        _ => None,
    }
}

proof fn lemma_read_tokens_none(items: Seq<JsonView>, i: int)
    requires
        0 <= i < items.len(),
        read_token(items[i]) is None,
    ensures
        read_tokens(items) is None,
    decreases items.len(),
{
    if i < items.len() - 1 {
        lemma_read_tokens_none(items.drop_last(), i);
    }
}

fn tokens_of(body: &Json) -> (r: Option<Vec<(String, Permission)>>)
    ensures
        crate::relay::session::opt_tokens(r) == cached_tokens(body@),
{
    let items = match body.get("tokens") {
        Some(j) => match j.as_arr() {
            Some(items) => items,
            None => {
                return None;
            },
        },
        None => {
            return None;
        },
    };
    let ghost all = items_view(items@);
    proof {
        lemma_items_view(items@);
    }
    if items.len() == 0 {
        return None;
    }
    let mut r: Vec<(String, Permission)> = Vec::new();
    let mut i: usize = 0;
    assert(all.take(0) =~= Seq::<JsonView>::empty());
    assert(tokens_view(r@) =~= Seq::<(Seq<char>, Permission)>::empty());
    while i < items.len()
        invariant
            i <= items@.len(),
            all == items_view(items@),
            all.len() == items@.len(),
            forall|j: int| 0 <= j < items@.len() ==> #[trigger] all[j] == items@[j]@,
            read_tokens(all.take(i as int)) == Some(tokens_view(r@)),
            cached_tokens(body@) == read_tokens(all),
        decreases items@.len() - i,
    {
        assert(all.take(i + 1).drop_last() =~= all.take(i as int));
        assert(all.take(i + 1).last() == items@[i as int]@);
        match token_of(&items[i]) {
            Some(t) => {
                let ghost before = tokens_view(r@);
                r.push(t);
                assert(tokens_view(r@) =~= before.push((t.0@, t.1)));
            },
            None => {
                proof {
                    lemma_read_tokens_none(all, i as int);
                }
                return None;
            },
        }
        i = i + 1;
    }
    assert(all.take(all.len() as int) =~= all);
    Some(r)
}

/// A token with its permission, as documents name them.
pub open spec fn token_doc(e: (Seq<char>, Permission)) -> JsonView {
    JsonView::object().with_str("token"@, e.0).with_str("permission"@, perm_name(e.1))
}

/// Tokens with their permissions, as documents name them.
pub open spec fn tokens_doc(toks: Tokens) -> JsonView {
    JsonView::Arr(toks.map_values(|e: (Seq<char>, Permission)| token_doc(e)))
}

pub fn tokens_json(tokens: &Vec<(String, Permission)>) -> (r: Json)
    ensures
        r@ == tokens_doc(tokens_view(tokens@)),
{
    let mut items: Vec<Json> = Vec::new();
    let mut i: usize = 0;
    while i < tokens.len()
        invariant
            i <= tokens@.len(),
            items@.len() == i,
            forall|j: int|
                0 <= j < i ==> (#[trigger] items@[j])@ == token_doc((tokens@[j].0@, tokens@[j].1)),
        decreases tokens@.len() - i,
    {
        items.push(
            Json::object().with_str("token", tokens[i].0.as_str()).with_str(
                "permission",
                perm_str(&tokens[i].1),
            ),
        );
        i = i + 1;
    }
    proof {
        lemma_items_view(items@);
        assert(items_view(items@) =~= tokens_view(tokens@).map_values(
            |e: (Seq<char>, Permission)| token_doc(e),
        ));
    }
    Json::Arr(items)
}

/// What a registered agent is told.
pub open spec fn registered_doc(sid: Seq<char>, toks: Tokens) -> JsonView {
    JsonView::object().with_str("type"@, "agent:registered"@).with_str("session_id"@, sid).with(
        "payload"@,
        JsonView::object().with("tokens"@, tokens_doc(toks)),
    )
}

/// The session id that a registration asks for; an empty one asks for none.
pub open spec fn desired_id(body: JsonView) -> Option<Seq<char>> {
    match body.str_field("session_id"@) {
        Some(s) => if s.len() == 0 {
            None
        } else {
            Some(s)
        },
        None => None,
    }
}

/// The token type that a registration asks for, read-write unless it names another.
pub open spec fn wanted_type(body: JsonView) -> TokenType {
    match TokenType::named(body.str_or("token_type"@, "rw"@)) {
        Some(t) => t,
        None => TokenType::Rw,
    }
}

/// What a registration does to the registry.
pub open spec fn enter(r: RegistryView, body: JsonView, fresh: FreshView) -> (
    RegistryView,
    Registered,
) {
    match cached_tokens(body) {
        Some(toks) => r.register_existing(toks, desired_id(body), fresh.session_id),
        None => r.register(
            body.str_field("key"@),
            wanted_type(body).name(),
            desired_id(body),
            fresh,
        ),
    }
}

/// The relay after a client's request was counted, and whether it is let through.
pub open spec fn counted(v: RelayView, who: Seq<char>, max: nat, now: u128) -> (RelayView, bool) {
    let (limiter, allowed) = limit(v.limiter, who, max, (60 * NANOS_PER_SEC) as nat, now);
    (RelayView { limiter, ..v }, allowed)
}

/// What the relay does with a registration. A client registers at most ten times a minute, and
/// there are at most `MAX_SESSIONS` sessions. The session gets a channel unless it has one.
pub open spec fn agent_register(
    v: RelayView,
    who: Seq<char>,
    body: JsonView,
    now: u128,
    fresh: FreshView,
) -> (RelayView, ReplyView) {
    let (v1, allowed) = counted(v, who, 10, now);
    if !allowed {
        (v1, text_reply(429, "Too many registrations from this address"@))
    } else if v1.registry.sessions.len() >= MAX_SESSIONS {
        (v1, text_reply(503, "Session limit reached"@))
    } else {
        let (registry, result) = enter(v1.registry, body, fresh);
        match result {
            Err(RegisterError::IdTaken) => (v1, text_reply(409, "session_id already in use"@)),
            Err(RegisterError::InvalidId) => (
                v1,
                text_reply(400, "invalid session_id (5-20 alphanumeric)"@),
            ),
            Ok((sid, toks)) => {
                let channels = if v1.channels.contains_key(sid) {
                    v1.channels
                } else {
                    v1.channels.insert(sid, ChannelView::empty())
                };
                (
                    RelayView { registry, channels, ..v1 },
                    json_reply(200, registered_doc(sid, toks)),
                )
            },
        }
    }
}

/// Counts a client's request, and says whether it is let through.
pub fn count_request(state: &mut SharedState, who: &str, max: usize, now: u128) -> (allowed: bool)
    ensures
        (final(state)@, allowed) == counted(old(state)@, who@, max as nat, now),
{
    state.rate_limiter.check_at(who, max, 60 * NANOS_PER_SEC, now)
}

fn register_agent(
    state: &mut SharedState,
    who: &str,
    body: &Json,
    now: u128,
    fresh: FreshIds,
) -> (r: Reply)
    ensures
        (final(state)@, r@) == agent_register(old(state)@, who@, body@, now, fresh@),
{
    if !count_request(state, who, 10, now) {
        return Reply::text(429, "Too many registrations from this address");
    }
    let ghost v1 = state@;
    if state.sessions.count() >= MAX_SESSIONS {
        return Reply::text(503, "Session limit reached");
    }
    let desired = match body.str_field("session_id") {
        Some(s) => if s.is_empty() {
            None
        } else {
            Some(s.to_owned())
        },
        None => None,
    };
    let ghost drawn = fresh@;
    let result = match tokens_of(body) {
        Some(tokens) => state.sessions.register_existing_with(tokens, desired, fresh.session_id),
        None => {
            let key = match body.str_field("key") {
                Some(k) => Some(k.to_owned()),
                None => None,
            };
            let wanted = match TokenType::from_str_val(body.str_or("token_type", "rw")) {
                Some(t) => t,
                None => TokenType::Rw,
            };
            state.sessions.register_with(key, wanted.as_str(), desired, fresh)
        },
    };
    match result {
        Err(RegisterError::IdTaken) => {
            assert(state@ =~= v1);
            Reply::text(409, "session_id already in use")
        },
        Err(RegisterError::InvalidId) => {
            assert(state@ =~= v1);
            Reply::text(400, "invalid session_id (5-20 alphanumeric)")
        },
        Ok((sid, tokens)) => {
            if !state.agent_broadcast.contains_key(sid.as_str()) {
                state.agent_broadcast.insert(sid.clone(), ChannelMap::new());
            }
            Reply::json(
                200,
                Json::object().with_str("type", "agent:registered").with_str(
                    "session_id",
                    sid.as_str(),
                ).with("payload", Json::object().with("tokens", tokens_json(&tokens))),
            )
        },
    }
}

// ---- agents that send ----
/// Whether an agent's message may pass: there is no server password, or the message names a session
/// that has a channel, or it carries the password in its header or its body.
pub open spec fn agent_allowed(v: RelayView, auth: Seq<char>, body: JsonView) -> bool {
    let sid = body.str_or("session_id"@, ""@);
    ||| v.server_auth.len() == 0
    ||| sid.len() > 0 && v.channels.contains_key(sid)
    ||| auth == v.server_auth
    ||| body.str_or("auth"@, ""@) == v.server_auth
}

/// What the relay does with what an agent sends.
pub open spec fn agent_send(
    v: RelayView,
    who: Seq<char>,
    auth: Seq<char>,
    body: JsonView,
    now: u128,
    fresh: FreshView,
) -> (RelayView, ReplyView, Option<(Seq<char>, JsonView)>) {
    let sid = body.str_or("session_id"@, ""@);
    if body.str_or("type"@, ""@) == "agent:register"@ {
        let (v1, reply) = agent_register(v, who, body, now, fresh);
        (v1, reply, None)
    } else if !agent_allowed(v, auth, body) {
        (v, text_reply(401, "Invalid server password"@), None)
    } else if sid.len() == 0 {
        (v, text_reply(400, "Missing session_id"@), None)
    } else {
        let (v1, answer) = route(v.touch(sid, now), sid, body);
        (v1, bare(200), answer)
    }
}

/// Takes what an agent sends, with its client address, the token of its header, the time and the
/// random values given.
pub fn agent_send_with(
    state: &mut SharedState,
    who: &str,
    auth: &str,
    body: &Json,
    now: u128,
    fresh: FreshIds,
) -> (r: (Reply, Option<Answer>))
    ensures
        (final(state)@, r.0@, answer_view(r.1)) == agent_send(
            old(state)@,
            who@,
            auth@,
            body@,
            now,
            fresh@,
        ),
{
    if str_eq(body.str_or("type", ""), "agent:register") {
        let reply = register_agent(state, who, body, now, fresh);
        return (reply, None);
    }
    proof {
        reveal_strlit("");
    }
    let sid = body.str_or("session_id", "");
    if !state.server_auth.as_str().is_empty() {
        let known = !sid.is_empty() && state.agent_broadcast.contains_key(sid);
        if !known && !constant_time_eq(auth, state.server_auth.as_str()) && !constant_time_eq(
            body.str_or("auth", ""),
            state.server_auth.as_str(),
        ) {
            return (Reply::text(401, "Invalid server password"), None);
        }
    }
    if sid.is_empty() {
        return (Reply::text(400, "Missing session_id"), None);
    }
    state.touch(sid, now);
    let answer = route_agent_message(state, sid, body);
    (Reply::bare(200), answer)
}

/// The token of a request's `Authorization` header, empty where it has none.
pub open spec fn header_auth(headers: HeaderMap) -> Seq<char> {
    match header(headers, "authorization"@) {
        Some(v) => match stripped(v, "Bearer "@) {
            Some(t) => t,
            None => ""@,
        },
        None => ""@,
    }
}

fn auth_of(headers: &HeaderMap) -> (r: String)
    ensures
        r@ == header_auth(*headers),
{
    match header_text(headers, "authorization") {
        Some(v) => match strip_prefix(v.as_str(), "Bearer ") {
            Some(t) => t.to_owned(),
            None => "".to_owned(),
        },
        None => "".to_owned(),
    }
}

/// Takes what an agent sends: a registration, or a message to be routed. Returns the reply, and the
/// answer to a pending request that the message holds.
pub fn agent_send_handler(state: &mut SharedState, headers: &HeaderMap, body: &Json) -> (r: (
    Reply,
    Option<Answer>,
))
    ensures
        exists|now: u128, fresh: FreshView| #[trigger]
            agent_send(
                old(state)@,
                client(*headers),
                header_auth(*headers),
                body@,
                now,
                fresh,
            ) == (final(state)@, r.0@, answer_view(r.1)) && fresh.drawn(),
{
    let now = state.now();
    let fresh = FreshIds::draw();
    let who = client_address(headers);
    let auth = auth_of(headers);
    agent_send_with(state, who.as_str(), auth.as_str(), body, now, fresh)
}

// ---- agents that listen ----
/// What comes of an agent's request for its events.
pub enum AgentStream {
    Refused(Reply),
    /// The agent is connected, by a connection of this number; the events it missed are sent first.
    Open { session_id: String, connection: u64, missed: Vec<(u64, String)> },
}

pub enum AgentStreamView {
    Refused(ReplyView),
    Open { session_id: Seq<char>, connection: u64, missed: Events },
}

impl View for AgentStream {
    type V = AgentStreamView;

    open spec fn view(&self) -> AgentStreamView {
        match self {
            AgentStream::Refused(r) => AgentStreamView::Refused(r@),
            AgentStream::Open { session_id, connection, missed } => AgentStreamView::Open {
                session_id: session_id@,
                connection: *connection,
                missed: events_view(missed@),
            },
        }
    }
}

/// What the relay does when an agent asks for its events. From then on messages wait in a new queue,
/// for a connection with a new number, and the buffered events after the one that the agent names are
/// sent again.
pub open spec fn agent_events(
    v: RelayView,
    who: Seq<char>,
    session: Option<Seq<char>>,
    last_event_id: Option<Seq<char>>,
    now: u128,
) -> (RelayView, AgentStreamView) {
    let (v1, allowed) = counted(v, who, 30, now);
    let sid = match session {
        Some(s) => s,
        None => Seq::empty(),
    };
    if !allowed {
        (v1, AgentStreamView::Refused(bare(429)))
    } else if sid.len() == 0 {
        (v1, AgentStreamView::Refused(bare(400)))
    } else if !v1.channels.contains_key(sid) {
        (v1, AgentStreamView::Refused(bare(404)))
    } else {
        let connection = v1.next_connection();
        let c = ChannelView { agent: Some(Seq::empty()), connection, ..v1.channels[sid] };
        let missed = match last_event_id {
            Some(t) => match parsed_u64(t) {
                Some(id) => v1.buffer(sid).replay_from(id),
                None => Seq::empty(),
            },
            None => Seq::empty(),
        };
        (
            RelayView { channels: v1.channels.insert(sid, c), connections: connection, ..v1 },
            AgentStreamView::Open { session_id: sid, connection, missed },
        )
    }
}

/// Connects an agent, with its client address, what it asks for and the time given.
pub fn agent_events_with(
    state: &mut SharedState,
    who: &str,
    session: Option<&str>,
    last_event_id: Option<&str>,
    now: u128,
) -> (r: AgentStream)
    ensures
        (final(state)@, r@) == agent_events(
            old(state)@,
            who@,
            opt_str(session),
            opt_str(last_event_id),
            now,
        ),
{
    if !count_request(state, who, 30, now) {
        return AgentStream::Refused(Reply::bare(429));
    }
    let ghost v1 = state@;
    let sid = match session {
        Some(s) => s,
        None => {
            return AgentStream::Refused(Reply::bare(400));
        },
    };
    if sid.is_empty() {
        return AgentStream::Refused(Reply::bare(400));
    }
    let missed = match last_event_id {
        Some(t) => match parse_u64(t) {
            Some(id) => state.replay(sid, id),
            None => Vec::new(),
        },
        None => Vec::new(),
    };
    match state.agent_broadcast.remove(sid) {
        None => {
            assert(state@ =~= v1);
            AgentStream::Refused(Reply::bare(404))
        },
        Some(c) => {
            let mut c = c;
            let connection: u64 = state.connections.wrapping_add(1);
            c.agent = Some(MessageQueue::new());
            c.connection = connection;
            state.connections = connection;
            state.agent_broadcast.insert(sid.to_owned(), c);
            proof {
                let w = agent_events(
                    old(state)@,
                    who@,
                    opt_str(session),
                    opt_str(last_event_id),
                    now,
                );
                assert(state@.channels =~= w.0.channels);
                assert(events_view(Seq::<(u64, String)>::empty()) =~= Seq::<
                    (u64, Seq<char>),
                >::empty());
            }
            AgentStream::Open { session_id: sid.to_owned(), connection, missed }
        },
    }
}

/// The value of a query parameter.
pub open spec fn param(params: Map<Seq<char>, Seq<char>>, name: Seq<char>) -> Option<Seq<char>> {
    if params.contains_key(name) {
        Some(params[name])
    } else {
        None
    }
}

/// The value of a query parameter.
pub fn query_param<'a>(params: &'a StrMap<String>, name: &str) -> (r: Option<&'a str>)
    ensures
        opt_str(r) == param(params@, name@),
{
    match params.get(name) {
        Some(v) => Some(v.as_str()),
        None => None,
    }
}

/// Connects an agent to the stream of its events.
pub fn agent_events_handler(
    state: &mut SharedState,
    headers: &HeaderMap,
    params: &StrMap<String>,
) -> (r: AgentStream)
    ensures
        exists|now: u128| #[trigger]
            agent_events(
                old(state)@,
                client(*headers),
                param(params@, "session"@),
                header(*headers, "last-event-id"@),
                now,
            ) == (final(state)@, r@),
{
    let now = state.now();
    let who = client_address(headers);
    let last = header_text(headers, "last-event-id");
    match last {
        Some(t) => agent_events_with(
            state,
            who.as_str(),
            query_param(params, "session"),
            Some(t.as_str()),
            now,
        ),
        None => agent_events_with(
            state,
            who.as_str(),
            query_param(params, "session"),
            None,
            now,
        ),
    }
}

// ---- browsers that listen ----
/// A reply that names an error.
pub open spec fn error_reply(status: u16, error: Seq<char>) -> ReplyView {
    json_reply(status, JsonView::object().with_str("error"@, error))
}

pub fn refuse(status: u16, why: &str) -> (r: Reply)
    ensures
        r@ == error_reply(status, why@),
{
    Reply::json(status, Json::object().with_str("error", why))
}

/// A browser that is connected.
pub struct BrowserStream {
    pub session_id: String,
    pub user_id: String,
    pub stream_id: String,
    pub permission: Permission,
    /// What the browser is told first.
    pub connected: Json,
}

/// What comes of a browser's request for its messages.
pub enum BrowserConnect {
    Refused(Reply),
    Open(BrowserStream),
}

pub enum BrowserConnectView {
    Refused(ReplyView),
    Open {
        session_id: Seq<char>,
        user_id: Seq<char>,
        stream_id: Seq<char>,
        permission: Permission,
        connected: JsonView,
    },
}

impl View for BrowserConnect {
    type V = BrowserConnectView;

    open spec fn view(&self) -> BrowserConnectView {
        match self {
            BrowserConnect::Refused(r) => BrowserConnectView::Refused(r@),
            BrowserConnect::Open(b) => BrowserConnectView::Open {
                session_id: b.session_id@,
                user_id: b.user_id@,
                stream_id: b.stream_id@,
                permission: b.permission,
                connected: b.connected@,
            },
        }
    }
}

/// A message about one user of a session.
pub open spec fn user_doc(
    msg_type: Seq<char>,
    sid: Seq<char>,
    user: Seq<char>,
    p: Permission,
) -> JsonView {
    message(
        msg_type,
        sid,
        JsonView::object().with_str("user_id"@, user).with_str("permission"@, perm_name(p)),
    ).json()
}

fn user_json(msg_type: &str, sid: &str, user: &str, p: Permission) -> (r: Json)
    ensures
        r@ == user_doc(msg_type@, sid@, user@, p),
{
    Message::new(
        msg_type,
        sid,
        Json::object().with_str("user_id", user).with_str("permission", perm_str(&p)),
    ).to_json()
}

/// How many browsers a session has.
pub open spec fn users_doc(sid: Seq<char>, count: nat) -> JsonView {
    message(
        "session:users"@,
        sid,
        JsonView::object().with("count"@, JsonView::Int(count as int)),
    ).json()
}

fn users_json(sid: &str, count: usize) -> (r: Json)
    ensures
        r@ == users_doc(sid@, count as nat),
{
    Message::new(
        "session:users",
        sid,
        Json::object().with("count", Json::Int(count as i128)),
    ).to_json()
}

/// The relay after a session's browsers were told how many they are.
pub open spec fn told_users(v: RelayView, sid: Seq<char>) -> RelayView {
    if v.channels.contains_key(sid) {
        v.to_browsers(sid, None, users_doc(sid, v.channels[sid].browsers.len()))
    } else {
        v
    }
}

fn tell_users(state: &mut SharedState, sid: &str)
    ensures
        final(state)@ == told_users(old(state)@, sid@),
{
    let count = match state.agent_broadcast.get(sid) {
        Some(c) => c.browser_sessions.len(),
        None => {
            return;
        },
    };
    state.send_to_browsers(sid, None, &users_json(sid, count));
}

/// What the relay does when a browser asks for its messages. The token says which session it is
/// for. The user gets a stream; the agent hears of the user, and all browsers of the session hear
/// how many they are.
pub open spec fn browser_sse(
    v: RelayView,
    token: Option<Seq<char>>,
    user: Seq<char>,
    stream: Seq<char>,
) -> (RelayView, BrowserConnectView) {
    match token {
        None => (v, BrowserConnectView::Refused(error_reply(401, "Missing token"@))),
        Some(t) => match v.registry.authenticate(t) {
            None => (v, BrowserConnectView::Refused(error_reply(401, "Invalid token"@))),
            Some((sid, p)) => {
                let v1 = RelayView { streams: v.streams.insert(stream, Seq::empty()), ..v };
                let v2 = if v1.channels.contains_key(sid) {
                    let c = v1.channels[sid];
                    RelayView {
                        channels: v1.channels.insert(
                            sid,
                            ChannelView { browsers: put(c.browsers, user, stream), ..c },
                        ),
                        ..v1
                    }
                } else {
                    v1
                };
                let v3 = v2.to_agent(sid, user_doc("session:join"@, sid, user, p));
                (
                    told_users(v3, sid),
                    BrowserConnectView::Open {
                        session_id: sid,
                        user_id: user,
                        stream_id: stream,
                        permission: p,
                        connected: user_doc("browser:connected"@, sid, user, p),
                    },
                )
            },
        },
    }
}

/// Connects a browser, with the ids given.
pub fn browser_sse_with(
    state: &mut SharedState,
    token: Option<&str>,
    user_id: String,
    stream_id: String,
) -> (r: BrowserConnect)
    ensures
        (final(state)@, r@) == browser_sse(old(state)@, opt_str(token), user_id@, stream_id@),
{
    let token = match token {
        Some(t) => t,
        None => {
            return BrowserConnect::Refused(refuse(401, "Missing token"));
        },
    };
    let (session_id, permission) = match state.sessions.authenticate(token) {
        Some(a) => a,
        None => {
            return BrowserConnect::Refused(refuse(401, "Invalid token"));
        },
    };
    state.sse_sessions.insert(stream_id.clone(), MessageQueue::new());
    let ghost v1 = state@;
    match state.agent_broadcast.remove(session_id.as_str()) {
        Some(c) => {
            let ghost before = c@;
            let mut c = c;
            c.browser_sessions.insert(user_id.clone(), stream_id.clone());
            state.agent_broadcast.insert(session_id.clone(), c);
            assert(state@.channels =~= v1.channels.insert(
                session_id@,
                ChannelView { browsers: put(before.browsers, user_id@, stream_id@), ..before },
            ));
        },
        None => {
            assert(state@ =~= v1);
        },
    }
    state.send_to_agent(
        session_id.as_str(),
        user_json("session:join", session_id.as_str(), user_id.as_str(), permission),
    );
    tell_users(state, session_id.as_str());
    let connected = user_json(
        "browser:connected",
        session_id.as_str(),
        user_id.as_str(),
        permission,
    );
    BrowserConnect::Open(
        BrowserStream { session_id, user_id, stream_id, permission, connected },
    )
}

/// The token of a request's header, or else the one of its query.
pub open spec fn request_token(
    headers: HeaderMap,
    params: Map<Seq<char>, Seq<char>>,
) -> Option<Seq<char>> {
    match header_bearer(headers) {
        Some(t) => Some(t),
        None => param(params, "token"@),
    }
}

/// The token of a request's header, or else the one of its query.
pub fn token_of_request(headers: &HeaderMap, params: &StrMap<String>) -> (r: Option<String>)
    ensures
        opt_text(r) == request_token(*headers, params@),
{
    extract_token_from_headers_or_query(headers, params.get("token"))
}

/// Connects a browser to the stream of its messages.
pub fn browser_sse_handler(
    state: &mut SharedState,
    headers: &HeaderMap,
    params: &StrMap<String>,
) -> (r: BrowserConnect)
    ensures
        exists|user: Seq<char>, id: Seq<char>| #[trigger]
            browser_sse(
                old(state)@,
                request_token(*headers, params@),
                user,
                "bs_"@ + id,
            ) == (final(state)@, r@) && is_uuid(user) && is_uuid(id),
{
    let token = token_of_request(headers, params);
    let user_id = new_uuid();
    let id = new_uuid();
    let stream_id = join2("bs_", id.as_str());
    match token {
        Some(t) => browser_sse_with(state, Some(t.as_str()), user_id, stream_id),
        None => browser_sse_with(state, None, user_id, stream_id),
    }
}

/// What the relay does when a browser's stream ends: the stream and the user go, the other browsers
/// hear how many they are, and the agent hears that the user left.
pub open spec fn browser_leave(
    v: RelayView,
    sid: Seq<char>,
    user: Seq<char>,
    stream: Seq<char>,
    p: Permission,
) -> RelayView {
    let v1 = RelayView { streams: v.streams.remove(stream), ..v };
    let v2 = if v1.channels.contains_key(sid) {
        let c = v1.channels[sid];
        RelayView {
            channels: v1.channels.insert(
                sid,
                ChannelView { browsers: drop_key(c.browsers, user), ..c },
            ),
            ..v1
        }
    } else {
        v1
    };
    told_users(v2, sid).to_agent(sid, user_doc("session:leave"@, sid, user, p))
}

/// Takes note that a browser's stream ended.
pub fn browser_left(state: &mut SharedState, b: &BrowserStream)
    ensures
        final(state)@ == browser_leave(
            old(state)@,
            b.session_id@,
            b.user_id@,
            b.stream_id@,
            b.permission,
        ),
{
    let sid = b.session_id.as_str();
    let _ = state.sse_sessions.remove(b.stream_id.as_str());
    let ghost v1 = state@;
    match state.agent_broadcast.remove(sid) {
        Some(c) => {
            let ghost before = c@;
            let mut c = c;
            let _ = c.browser_sessions.remove(b.user_id.as_str());
            state.agent_broadcast.insert(sid.to_owned(), c);
            assert(state@.channels =~= v1.channels.insert(
                sid@,
                ChannelView { browsers: drop_key(before.browsers, b.user_id@), ..before },
            ));
        },
        None => {
            assert(state@ =~= v1);
        },
    }
    tell_users(state, sid);
    state.send_to_agent(
        sid,
        user_json("session:leave", sid, b.user_id.as_str(), b.permission),
    );
}

// ---- browsers that send ----
/// What the relay does with what a browser sends. The token says which session it is for and what
/// it may send; a message that may pass is recorded if it is terminal input, and goes to the agent.
pub open spec fn browser_send(v: RelayView, body: JsonView, now: u128) -> (RelayView, ReplyView) {
    let t = body.str_or("type"@, ""@);
    match body.str_field("token"@) {
        None => (v, error_reply(401, "Missing token"@)),
        Some(token) => match v.registry.authenticate(token) {
            None => (v, error_reply(401, "Invalid token"@)),
            Some((sid, p)) => if t.len() == 0 {
                (v, error_reply(400, "Missing message type"@))
            } else if !read_only_type(t) && p == Permission::ReadOnly {
                (v, error_reply(403, "Read-only users cannot send write-type messages"@))
            } else {
                let payload = body.at("payload"@);
                let v1 = match payload.str_field("data"@) {
                    Some(data) => if t == "terminal:input"@ {
                        recorded(v, sid, RecordEventView::Input(typed(data)))
                    } else {
                        v
                    },
                    None => v,
                };
                (v1.touch(sid, now).to_agent(sid, message(t, sid, payload).json()), bare(202))
            },
        },
    }
}

/// Takes what a browser sends, with the time given.
pub fn browser_send_with(state: &mut SharedState, body: &Json, now: u128) -> (r: Reply)
    ensures
        (final(state)@, r@) == browser_send(old(state)@, body@, now),
{
    let token = match body.str_field("token") {
        Some(t) => t,
        None => {
            return refuse(401, "Missing token");
        },
    };
    let (session_id, permission) = match state.sessions.authenticate(token) {
        Some(a) => a,
        None => {
            return refuse(401, "Invalid token");
        },
    };
    let msg_type = body.str_or("type", "");
    if msg_type.is_empty() {
        return refuse(400, "Missing message type");
    }
    if requires_write(msg_type) && permission == Permission::ReadOnly {
        return refuse(403, "Read-only users cannot send write-type messages");
    }
    let payload = body.at("payload");
    if str_eq(msg_type, "terminal:input") {
        if let Some(data) = payload.str_field("data") {
            record(state, session_id.as_str(), RecordEvent::Input(decode_terminal_data(data)));
        }
    }
    state.touch(session_id.as_str(), now);
    let m = Message::new(msg_type, session_id.as_str(), payload);
    state.send_to_agent(session_id.as_str(), m.to_json());
    Reply::bare(202)
}

/// Takes what a browser sends.
pub fn browser_send_handler(state: &mut SharedState, body: &Json) -> (r: Reply)
    ensures
        exists|now: u128| #[trigger]
            browser_send(old(state)@, body@, now) == (final(state)@, r@),
{
    let now = state.now();
    browser_send_with(state, body, now)
}

// ---- laws ----
/// A read-only token cannot send what needs write permission: the request is refused, nothing
/// reaches the agent and nothing changes.
pub proof fn read_only_cannot_write(v: RelayView, body: JsonView, now: u128, sid: Seq<char>)
    requires
        body.str_field("token"@) is Some,
        v.registry.authenticate(body.str_field("token"@)->0) == Some((sid, Permission::ReadOnly)),
        body.str_or("type"@, ""@).len() > 0,
        !read_only_type(body.str_or("type"@, ""@)),
    ensures
        browser_send(v, body, now) == (
            v,
            error_reply(403, "Read-only users cannot send write-type messages"@),
        ),
{
}

/// A browser whose token opens nothing is refused, and nothing changes.
pub proof fn unknown_token_is_refused(
    v: RelayView,
    token: Seq<char>,
    user: Seq<char>,
    stream: Seq<char>,
    body: JsonView,
    now: u128,
)
    requires
        v.registry.authenticate(token) is None,
        body.str_field("token"@) == Some(token),
    ensures
        browser_send(v, body, now) == (v, error_reply(401, "Invalid token"@)),
        browser_sse(v, Some(token), user, stream) == (
            v,
            BrowserConnectView::Refused(error_reply(401, "Invalid token"@)),
        ),
{
}

/// A message from an agent that neither names a session with a channel nor carries the server
/// password is refused, and nothing changes.
pub proof fn agent_needs_password(
    v: RelayView,
    who: Seq<char>,
    auth: Seq<char>,
    body: JsonView,
    now: u128,
    fresh: FreshView,
)
    requires
        v.server_auth.len() > 0,
        body.str_or("type"@, ""@) != "agent:register"@,
        body.str_or("session_id"@, ""@).len() == 0 || !v.channels.contains_key(
            body.str_or("session_id"@, ""@),
        ),
        auth != v.server_auth,
        body.str_or("auth"@, ""@) != v.server_auth,
    ensures
        agent_send(v, who, auth, body, now, fresh) == (
            v,
            text_reply(401, "Invalid server password"@),
            None::<(Seq<char>, JsonView)>,
        ),
{
}

/// What comes from one session goes to that session: a browser's message reaches no other agent and
/// no browser, and an agent's message reaches no agent and only streams of its own browsers.
pub proof fn sessions_are_apart(
    v: RelayView,
    body: JsonView,
    now: u128,
    sid: Seq<char>,
    doc: JsonView,
    other: Seq<char>,
    stream: Seq<char>,
)
    ensures
        browser_send(v, body, now).0.streams == v.streams,
        body.str_field("token"@) is Some && !v.registry.opens(body.str_field("token"@)->0, other)
            ==> browser_send(v, body, now).0.channels.contains_key(other)
            == v.channels.contains_key(other) && browser_send(v, body, now).0.channels[other]
            == v.channels[other],
        route(v, sid, doc).0.channels == v.channels,
        route(v, sid, doc).0.streams.dom() == v.streams.dom(),
        !(v.channels.contains_key(sid) && exists|i: int|
            0 <= i < v.channels[sid].browsers.len() && (#[trigger] v.channels[sid].browsers[i]).1
                == stream) ==> route(v, sid, doc).0.streams[stream] == v.streams[stream],
{
    if let Some(m) = MessageView::of(doc) {
        if v.channels.contains_key(sid) {
            let target = m.payload.str_field("_target_user_id"@);
            let ids = target_streams(v.channels[sid].browsers, target);
            targets_are_meant(v.channels[sid].browsers, target, stream);
            lemma_fan_out_dom(v.streams, ids, doc);
            if !ids.contains(stream) {
                lemma_fan_out_others(v.streams, ids, doc, stream);
            }
        }
    }
}

proof fn lemma_fan_out_others(
    streams: Map<Seq<char>, Seq<JsonView>>,
    ids: Seq<Seq<char>>,
    m: JsonView,
    id: Seq<char>,
)
    requires
        !ids.contains(id),
    ensures
        fan_out(streams, ids, m)[id] == streams[id],
    decreases ids.len(),
{
    if ids.len() > 0 {
        let init = ids.drop_last();
        assert(ids[ids.len() - 1] == ids.last());
        assert(!init.contains(id)) by {
            if init.contains(id) {
                let i = choose|i: int| 0 <= i < init.len() && init[i] == id;
                assert(ids[i] == id);
            }
        }
        lemma_fan_out_others(streams, init, m, id);
    }
}

/// Routing answers only a request that waits, and answers it once; it changes neither sessions nor
/// tokens nor who is connected.
pub proof fn routing_answers_once(v: RelayView, sid: Seq<char>, doc: JsonView)
    ensures
        ({
            let (w, answer) = route(v, sid, doc);
            &&& w.registry == v.registry
            &&& w.channels == v.channels
            &&& answer is None ==> w.pending == v.pending
            &&& answer is Some ==> v.pending.contains_key((answer->0).0) && w.pending
                == v.pending.remove((answer->0).0)
        }),
{
}

/// There are never more sessions than the relay accepts.
pub proof fn sessions_are_bounded(
    v: RelayView,
    who: Seq<char>,
    body: JsonView,
    now: u128,
    fresh: FreshView,
)
    requires
        v.registry.sessions.dom().finite(),
        v.registry.sessions.len() <= MAX_SESSIONS,
    ensures
        agent_register(v, who, body, now, fresh).0.registry.sessions.dom().finite(),
        agent_register(v, who, body, now, fresh).0.registry.sessions.len() <= MAX_SESSIONS,
{
    let (v1, allowed) = counted(v, who, 10, now);
    let (registry, result) = enter(v1.registry, body, fresh);
    if let Ok((sid, toks)) = result {
        let before = v.registry.sessions;
        let after = registry.sessions;
        assert(after.dom() =~= before.dom().insert(sid));
    }
}

/// A message delivered to streams reaches each of them that is open, and no other.
pub proof fn fan_out_reaches(
    streams: Map<Seq<char>, Seq<JsonView>>,
    ids: Seq<Seq<char>>,
    m: JsonView,
    id: Seq<char>,
)
    requires
        ids.no_duplicates(),
    ensures
        fan_out(streams, ids, m).dom() == streams.dom(),
        streams.contains_key(id) && ids.contains(id) ==> fan_out(streams, ids, m)[id] == delivered(
            streams[id],
            m,
        ),
        !ids.contains(id) ==> fan_out(streams, ids, m)[id] == streams[id],
    decreases ids.len(),
{
    if ids.len() > 0 {
        let init = ids.drop_last();
        fan_out_reaches(streams, init, m, id);
        assert(fan_out(streams, ids, m).dom() =~= streams.dom());
        assert(ids[ids.len() - 1] == ids.last());
        if ids.contains(id) && id != ids.last() {
            let i = choose|i: int| 0 <= i < ids.len() && ids[i] == id;
            assert(init[i] == id);
        }
        if init.contains(id) {
            let i = choose|i: int| 0 <= i < init.len() && init[i] == id;
            assert(ids[i] == id);
        }
    }
}

/// The streams that a message goes to are those of the users that it is for.
pub proof fn targets_are_meant(
    browsers: Seq<(Seq<char>, Seq<char>)>,
    target: Option<Seq<char>>,
    stream: Seq<char>,
)
    ensures
        target_streams(browsers, target).contains(stream) <==> exists|i: int|
            0 <= i < browsers.len() && (#[trigger] browsers[i]).1 == stream && meant_for(
                target,
                browsers[i].0,
            ),
    decreases browsers.len(),
{
    if browsers.len() > 0 {
        let init = browsers.drop_last();
        let rest = target_streams(init, target);
        let all = target_streams(browsers, target);
        targets_are_meant(init, target, stream);
        assert(browsers[browsers.len() - 1] == browsers.last());
        if rest.contains(stream) {
            let i = choose|i: int|
                0 <= i < init.len() && (#[trigger] init[i]).1 == stream && meant_for(
                    target,
                    init[i].0,
                );
            assert(browsers[i] == init[i]);
            let k = choose|k: int| 0 <= k < rest.len() && rest[k] == stream;
            assert(all[k] == stream);
        }
        if meant_for(target, browsers.last().0) {
            assert(all[all.len() - 1] == browsers.last().1);
        }
        if all.contains(stream) && !rest.contains(stream) {
            let k = choose|k: int| 0 <= k < all.len() && all[k] == stream;
            if k < rest.len() {
                assert(rest[k] == stream);
            }
            assert(browsers[browsers.len() - 1].1 == stream);
        }
        if exists|i: int|
            0 <= i < browsers.len() && (#[trigger] browsers[i]).1 == stream && meant_for(
                target,
                browsers[i].0,
            ) {
            let i = choose|i: int|
                0 <= i < browsers.len() && (#[trigger] browsers[i]).1 == stream && meant_for(
                    target,
                    browsers[i].0,
                );
            if i < init.len() {
                assert(init[i] == browsers[i]);
                assert(rest.contains(stream));
            }
        }
    }
}

/// A browser that connects is among the session's browsers and has a stream; once it left, neither.
pub proof fn browser_comes_and_goes(
    v: RelayView,
    token: Seq<char>,
    user: Seq<char>,
    stream: Seq<char>,
    sid: Seq<char>,
    p: Permission,
)
    requires
        v.registry.authenticate(token) == Some((sid, p)),
        v.channels.contains_key(sid),
    ensures
        ({
            let w = browser_sse(v, Some(token), user, stream).0;
            let x = browser_leave(w, sid, user, stream, p);
            &&& w.streams.contains_key(stream)
            &&& has_key(w.channels[sid].browsers, user)
            &&& !x.streams.contains_key(stream)
            &&& !has_key(x.channels[sid].browsers, user)
        }),
{
    let c = v.channels[sid];
    let more = put(c.browsers, user, stream);
    let w = browser_sse(v, Some(token), user, stream).0;
    if has_key(c.browsers, user) {
        let i = choose|i: int| 0 <= i < c.browsers.len() && (#[trigger] c.browsers[i]).0 == user;
        assert(more[i].0 == user);
    } else {
        assert(more[c.browsers.len() as int].0 == user);
    }
    lemma_fan_out_dom(
        v.streams.insert(stream, Seq::empty()),
        target_streams(more, None),
        users_doc(sid, more.len()),
    );
    let gone = drop_key(more, user);
    lemma_filter(more, |e: (Seq<char>, Seq<char>)| e.0 != user);
    assert(!has_key(gone, user)) by {
        if has_key(gone, user) {
            let i = choose|i: int| 0 <= i < gone.len() && (#[trigger] gone[i]).0 == user;
            assert(gone.contains(gone[i]));
        }
    }
    lemma_fan_out_dom(
        w.streams.remove(stream),
        target_streams(gone, None),
        users_doc(sid, gone.len()),
    );
}

pub proof fn lemma_fan_out_dom(
    streams: Map<Seq<char>, Seq<JsonView>>,
    ids: Seq<Seq<char>>,
    m: JsonView,
)
    ensures
        fan_out(streams, ids, m).dom() == streams.dom(),
    decreases ids.len(),
{
    if ids.len() > 0 {
        lemma_fan_out_dom(streams, ids.drop_last(), m);
        assert(fan_out(streams, ids, m).dom() =~= streams.dom());
    }
}

} // verus!
