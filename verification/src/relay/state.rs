//! What the relay knows, and how messages reach agents and browsers.
use vstd::prelude::*;

use crate::clock::{Clock, MAX_NANOS};
use crate::json::{Json, JsonView};
use crate::relay::events::{EventBuffer, EventsView};
use crate::relay::limiter::RateLimiter;
use crate::relay::queue::{delivered, MessageQueue, SSE_CHANNEL_CAPACITY};
use crate::relay::recorder::{Recorder, RecorderView};
use crate::relay::session::{RegistryView, SessionRegistry};
use crate::strmap::StrMap;
use crate::text::{opt_text, str_eq, texts_view};

verus! {

/// How many sessions a relay accepts.
pub const MAX_SESSIONS: usize = 1000;

/// What an agent is reached by, and for each of its browsers' users the stream that reaches them.
pub struct ChannelMap {
    pub agent: Option<MessageQueue>,
    /// The number of the agent's connection.
    pub connection: u64,
    pub browser_sessions: StrMap<String>,
}

pub struct ChannelView {
    /// The messages that wait for the agent, while it is connected.
    pub agent: Option<Seq<JsonView>>,
    /// The number of the agent's connection.
    pub connection: u64,
    /// The users with their streams, in the order they came.
    pub browsers: Seq<(Seq<char>, Seq<char>)>,
}

pub open spec fn queue_view(q: Option<MessageQueue>) -> Option<Seq<JsonView>> {
    match q {
        Some(q) => Some(q@),
        None => None,
    }
}

impl View for ChannelMap {
    type V = ChannelView;

    open spec fn view(&self) -> ChannelView {
        ChannelView {
            agent: queue_view(self.agent),
            connection: self.connection,
            browsers: self.browser_sessions.entries(),
        }
    }
}

impl ChannelView {
    pub open spec fn empty() -> ChannelView {
        ChannelView { agent: None, connection: 0, browsers: Seq::empty() }
    }
}

impl ChannelMap {
    pub fn new() -> (c: Self)
        ensures
            c@ == ChannelView::empty(),
    {
        ChannelMap { agent: None, connection: 0, browser_sessions: StrMap::new() }
    }
}

/// What a request is answered with.
#[derive(Debug, PartialEq)]
pub enum Body {
    Empty,
    Text(String),
    Json(Json),
}

pub enum BodyView {
    Empty,
    Text(Seq<char>),
    Json(JsonView),
}

impl View for Body {
    type V = BodyView;

    open spec fn view(&self) -> BodyView {
        match self {
            Body::Empty => BodyView::Empty,
            Body::Text(s) => BodyView::Text(s@),
            Body::Json(j) => BodyView::Json(j@),
        }
    }
}

/// The answer to a request.
#[derive(Debug, PartialEq)]
pub struct Reply {
    pub status: u16,
    pub body: Body,
    pub set_cookie: Option<String>,
}

pub struct ReplyView {
    pub status: u16,
    pub body: BodyView,
    pub set_cookie: Option<Seq<char>>,
}

impl View for Reply {
    type V = ReplyView;

    open spec fn view(&self) -> ReplyView {
        ReplyView {
            status: self.status,
            body: self.body@,
            set_cookie: opt_text(self.set_cookie),
        }
    }
}

pub open spec fn bare(status: u16) -> ReplyView {
    ReplyView { status, body: BodyView::Empty, set_cookie: None }
}

pub open spec fn text_reply(status: u16, text: Seq<char>) -> ReplyView {
    ReplyView { status, body: BodyView::Text(text), set_cookie: None }
}

pub open spec fn json_reply(status: u16, j: JsonView) -> ReplyView {
    ReplyView { status, body: BodyView::Json(j), set_cookie: None }
}

impl Reply {
    pub fn bare(status: u16) -> (r: Reply)
        ensures
            r@ == bare(status),
    {
        Reply { status, body: Body::Empty, set_cookie: None }
    }

    pub fn text(status: u16, text: &str) -> (r: Reply)
        ensures
            r@ == text_reply(status, text@),
    {
        Reply { status, body: Body::Text(text.to_owned()), set_cookie: None }
    }

    pub fn json(status: u16, j: Json) -> (r: Reply)
        ensures
            r@ == json_reply(status, j@),
    {
        Reply { status, body: Body::Json(j), set_cookie: None }
    }
}

/// All that the relay knows. Times are nanoseconds of the relay's clock.
pub struct SharedState {
    pub sessions: SessionRegistry,
    pub agent_broadcast: StrMap<ChannelMap>,
    /// How often agents have connected.
    pub connections: u64,
    /// For each request that waits for an agent's result, the session it went to.
    pub pending_mcp: StrMap<String>,
    /// When each session was last heard of.
    pub last_activity: StrMap<u128>,
    /// The server password; an empty one asks for none.
    pub server_auth: String,
    pub agent_event_buffers: StrMap<EventBuffer>,
    pub rate_limiter: RateLimiter,
    pub max_upload_size: u64,
    /// The messages that wait for each open stream of a browser.
    pub sse_sessions: StrMap<MessageQueue>,
    /// The open MCP streams.
    pub mcp_sse_channels: StrMap<()>,
    /// Where the admin panel is, if there is one.
    pub admin_path: Option<String>,
    pub admin_user: String,
    pub admin_pass: String,
    /// When each admin login ends.
    pub admin_sessions: StrMap<u128>,
    /// The relay's clock, started with the relay.
    pub started_at: Clock,
    /// The recorder, where sessions are recorded.
    pub recorder: Option<Recorder>,
}

#[verifier::ext_equal]
pub struct RelayView {
    pub registry: RegistryView,
    pub channels: Map<Seq<char>, ChannelView>,
    pub connections: u64,
    pub pending: Map<Seq<char>, Seq<char>>,
    pub last_activity: Map<Seq<char>, u128>,
    pub server_auth: Seq<char>,
    pub buffers: Map<Seq<char>, EventsView>,
    pub limiter: Map<Seq<char>, Seq<u128>>,
    pub max_upload_size: u64,
    pub streams: Map<Seq<char>, Seq<JsonView>>,
    pub mcp_streams: Set<Seq<char>>,
    pub admin_path: Option<Seq<char>>,
    pub admin_user: Seq<char>,
    pub admin_pass: Seq<char>,
    pub admin_sessions: Map<Seq<char>, u128>,
    pub recorder: Option<RecorderView>,
}

pub open spec fn recorder_view(r: Option<Recorder>) -> Option<RecorderView> {
    match r {
        Some(r) => Some(r@),
        None => None,
    }
}

impl View for SharedState {
    type V = RelayView;

    open spec fn view(&self) -> RelayView {
        RelayView {
            registry: self.sessions@,
            channels: self.agent_broadcast@,
            connections: self.connections,
            pending: self.pending_mcp@,
            last_activity: self.last_activity@,
            server_auth: self.server_auth@,
            buffers: self.agent_event_buffers@,
            limiter: self.rate_limiter@,
            max_upload_size: self.max_upload_size,
            streams: self.sse_sessions@,
            mcp_streams: self.mcp_sse_channels@.dom(),
            admin_path: opt_text(self.admin_path),
            admin_user: self.admin_user@,
            admin_pass: self.admin_pass@,
            admin_sessions: self.admin_sessions@,
            recorder: recorder_view(self.recorder),
        }
    }
}

/// The streams after a message was delivered to one of them.
pub open spec fn to_stream(
    streams: Map<Seq<char>, Seq<JsonView>>,
    id: Seq<char>,
    m: JsonView,
) -> Map<Seq<char>, Seq<JsonView>> {
    if streams.contains_key(id) {
        streams.insert(id, delivered(streams[id], m))
    } else {
        streams
    }
}

/// The streams after a message was delivered to each of `ids` in turn.
pub open spec fn fan_out(
    streams: Map<Seq<char>, Seq<JsonView>>,
    ids: Seq<Seq<char>>,
    m: JsonView,
) -> Map<Seq<char>, Seq<JsonView>>
    decreases ids.len(),
{
    if ids.len() == 0 {
        streams
    } else {
        to_stream(fan_out(streams, ids.drop_last(), m), ids.last(), m)
    }
}

/// Whether a message for `target` is for the user; one without a target is for every user.
pub open spec fn meant_for(target: Option<Seq<char>>, user: Seq<char>) -> bool {
    target is None || target == Some(user)
}

/// The streams of the users that a message is for.
pub open spec fn target_streams(
    browsers: Seq<(Seq<char>, Seq<char>)>,
    target: Option<Seq<char>>,
) -> Seq<Seq<char>>
    decreases browsers.len(),
{
    if browsers.len() == 0 {
        Seq::empty()
    } else {
        let rest = target_streams(browsers.drop_last(), target);
        if meant_for(target, browsers.last().0) {
            rest.push(browsers.last().1)
        } else {
            rest
        }
    }
}

/// The message that was taken.
pub open spec fn taken_view(r: Option<Json>) -> Option<JsonView> {
    match r {
        Some(m) => Some(m@),
        None => None,
    }
}

/// What came of offering a message.
#[derive(Debug, Clone, Copy, PartialEq, Eq, Structural)]
pub enum Offer {
    Sent,
    /// As many messages wait as may.
    Full,
    /// The connection has ended.
    Gone,
}

impl RelayView {
    /// A relay that has just started.
    pub open spec fn fresh(
        server_auth: Seq<char>,
        max_upload_size: u64,
        admin_path: Option<Seq<char>>,
        admin_user: Seq<char>,
        admin_pass: Seq<char>,
        recorder: Option<RecorderView>,
    ) -> RelayView {
        RelayView {
            registry: RegistryView::empty(),
            channels: Map::empty(),
            connections: 0,
            pending: Map::empty(),
            last_activity: Map::empty(),
            server_auth,
            buffers: Map::empty(),
            limiter: Map::empty(),
            max_upload_size,
            streams: Map::empty(),
            mcp_streams: Set::empty(),
            admin_path,
            admin_user,
            admin_pass,
            admin_sessions: Map::empty(),
            recorder,
        }
    }

    /// Whether the agent of a session is connected.
    pub open spec fn online(self, sid: Seq<char>) -> bool {
        self.channels.contains_key(sid) && self.channels[sid].agent is Some
    }

    /// The connection of the agent of a session, while it is connected.
    pub open spec fn connection(self, sid: Seq<char>) -> Option<u64> {
        if self.online(sid) {
            Some(self.channels[sid].connection)
        } else {
            None
        }
    }

    /// The number that the next connection gets.
    pub open spec fn next_connection(self) -> u64 {
        if self.connections == u64::MAX {
            0
        } else {
            (self.connections + 1) as u64
        }
    }

    /// A message was sent to the agent of a session, if it is connected.
    pub open spec fn to_agent(self, sid: Seq<char>, m: JsonView) -> RelayView {
        if self.online(sid) {
            let c = self.channels[sid];
            RelayView {
                channels: self.channels.insert(
                    sid,
                    ChannelView { agent: Some(delivered(c.agent->0, m)), ..c },
                ),
                ..self
            }
        } else {
            self
        }
    }

    /// The messages that wait for the agent of a session.
    pub open spec fn waiting_for_agent(self, sid: Seq<char>) -> Seq<JsonView> {
        if self.online(sid) {
            self.channels[sid].agent->0
        } else {
            Seq::empty()
        }
    }

    /// Other messages wait for the agent of a session that is connected.
    pub open spec fn agent_waits_for(self, sid: Seq<char>, q: Seq<JsonView>) -> RelayView {
        RelayView {
            channels: self.channels.insert(
                sid,
                ChannelView { agent: Some(q), ..self.channels[sid] },
            ),
            ..self
        }
    }

    /// A message was offered to a connection of the agent of a session: it is sent unless that
    /// connection has ended or as many wait as may.
    pub open spec fn offered(self, sid: Seq<char>, connection: u64, m: JsonView) -> (
        RelayView,
        Offer,
    ) {
        let q = self.waiting_for_agent(sid);
        if self.connection(sid) != Some(connection) {
            (self, Offer::Gone)
        } else if q.len() < SSE_CHANNEL_CAPACITY {
            (self.agent_waits_for(sid, q.push(m)), Offer::Sent)
        } else {
            (self, Offer::Full)
        }
    }

    /// The messages that wait for a stream.
    pub open spec fn waiting_for_stream(self, id: Seq<char>) -> Seq<JsonView> {
        if self.streams.contains_key(id) {
            self.streams[id]
        } else {
            Seq::empty()
        }
    }

    /// The agent of a session takes the oldest message that waits for it.
    pub open spec fn agent_takes(self, sid: Seq<char>) -> (RelayView, Option<JsonView>) {
        let q = self.waiting_for_agent(sid);
        if q.len() > 0 {
            (self.agent_waits_for(sid, q.skip(1)), Some(q[0]))
        } else {
            (self, None)
        }
    }

    /// A stream takes the oldest message that waits for it.
    pub open spec fn stream_takes(self, id: Seq<char>) -> (RelayView, Option<JsonView>) {
        let q = self.waiting_for_stream(id);
        if q.len() > 0 {
            (RelayView { streams: self.streams.insert(id, q.skip(1)), ..self }, Some(q[0]))
        } else {
            (self, None)
        }
    }

    /// An event was sent to the agent of a session: it is kept, under the next number.
    pub open spec fn event_sent(self, sid: Seq<char>, msg: Seq<char>) -> (RelayView, u64) {
        let b = self.buffer(sid).push(msg);
        (RelayView { buffers: self.buffers.insert(sid, b), ..self }, b.last_id)
    }

    /// A message was sent to the browsers of a session that it is for.
    pub open spec fn to_browsers(
        self,
        sid: Seq<char>,
        target: Option<Seq<char>>,
        m: JsonView,
    ) -> RelayView {
        if self.channels.contains_key(sid) {
            RelayView {
                streams: fan_out(
                    self.streams,
                    target_streams(self.channels[sid].browsers, target),
                    m,
                ),
                ..self
            }
        } else {
            self
        }
    }

    /// A session was heard of.
    pub open spec fn touch(self, sid: Seq<char>, now: u128) -> RelayView {
        RelayView { last_activity: self.last_activity.insert(sid, now), ..self }
    }

    /// The replay buffer of a session; an empty one before its first event.
    pub open spec fn buffer(self, sid: Seq<char>) -> EventsView {
        if self.buffers.contains_key(sid) {
            self.buffers[sid]
        } else {
            EventsView::empty()
        }
    }
}

impl SharedState {
    pub fn new(
        server_auth: String,
        max_upload_size: u64,
        admin_path: Option<String>,
        admin_user: String,
        admin_pass: String,
        recorder: Option<Recorder>,
    ) -> (s: Self)
        ensures
            s@ == RelayView::fresh(
                server_auth@,
                max_upload_size,
                opt_text(admin_path),
                admin_user@,
                admin_pass@,
                recorder_view(recorder),
            ),
    {
        SharedState {
            sessions: SessionRegistry::new(),
            agent_broadcast: StrMap::new(),
            connections: 0,
            pending_mcp: StrMap::new(),
            last_activity: StrMap::new(),
            server_auth,
            agent_event_buffers: StrMap::new(),
            rate_limiter: RateLimiter::new(),
            max_upload_size,
            sse_sessions: StrMap::new(),
            mcp_sse_channels: StrMap::new(),
            admin_path,
            admin_user,
            admin_pass,
            admin_sessions: StrMap::new(),
            started_at: Clock::start(),
            recorder,
        }
    }

    /// The number of the last event sent to a session's agent, 0 before the first.
    pub fn last_event_id(&self, session_id: &str) -> (id: u64)
        ensures
            id == self@.buffer(session_id@).last_id,
    {
        match self.agent_event_buffers.get(session_id) {
            Some(b) => b.last_id(),
            None => 0,
        }
    }

    /// Buffers an event for the agent of a session and returns its number.
    pub fn buffer_agent_event(&mut self, session_id: &str, msg: &str) -> (id: u64)
        requires
            old(self)@.buffer(session_id@).last_id < u64::MAX,
        ensures
            id == old(self)@.buffer(session_id@).last_id + 1,
            final(self)@ == (RelayView {
                buffers: old(self)@.buffers.insert(
                    session_id@,
                    old(self)@.buffer(session_id@).push(msg@),
                ),
                ..old(self)@
            }),
            (final(self)@, id) == old(self)@.event_sent(session_id@, msg@),
    {
        let ghost v = self@;
        let mut b = match self.agent_event_buffers.remove(session_id) {
            Some(b) => b,
            None => EventBuffer::new(),
        };
        let id = b.push(msg.to_owned());
        self.agent_event_buffers.insert(session_id.to_owned(), b);
        assert(self@.buffers =~= v.buffers.insert(session_id@, v.buffer(session_id@).push(msg@)));
        id
    }

    /// The buffered events of a session after the one numbered `last_id`.
    pub fn replay(&self, session_id: &str, last_id: u64) -> (r: Vec<(u64, String)>)
        ensures
            crate::relay::events::events_view(r@) == self@.buffer(session_id@).replay_from(last_id),
    {
        match self.agent_event_buffers.get(session_id) {
            Some(b) => b.replay_from(last_id),
            None => EventBuffer::new().replay_from(last_id),
        }
    }

    /// Whether the agent of a session is connected.
    pub fn is_online(&self, session_id: &str) -> (r: bool)
        ensures
            r == self@.online(session_id@),
    {
        match self.agent_broadcast.get(session_id) {
            Some(c) => c.agent.is_some(),
            None => false,
        }
    }

    /// The connection of the agent of a session, while it is connected.
    pub fn agent_connection(&self, session_id: &str) -> (r: Option<u64>)
        ensures
            r == self@.connection(session_id@),
    {
        match self.agent_broadcast.get(session_id) {
            Some(c) => if c.agent.is_some() {
                Some(c.connection)
            } else {
                None
            },
            None => None,
        }
    }

    /// Sends a message to the agent of a session, if it is connected.
    pub fn send_to_agent(&mut self, session_id: &str, m: Json)
        ensures
            final(self)@ == old(self)@.to_agent(session_id@, m@),
    {
        let ghost v = self@;
        if !self.is_online(session_id) {
            return;
        }
        match self.agent_broadcast.remove(session_id) {
            Some(c) => {
                let ChannelMap { agent, connection, browser_sessions } = c;
                match agent {
                    Some(q) => {
                        let mut q = q;
                        q.deliver(m);
                        self.agent_broadcast.insert(
                            session_id.to_owned(),
                            ChannelMap { agent: Some(q), connection, browser_sessions },
                        );
                        assert(self@.channels =~= v.to_agent(session_id@, m@).channels);
                    },
                    None => {},
                }
            },
            None => {},
        }
    }

    /// Takes the oldest message that waits for the agent of a session.
    pub fn next_for_agent(&mut self, session_id: &str) -> (r: Option<Json>)
        ensures
            ({
                let q = old(self)@.waiting_for_agent(session_id@);
                match r {
                    Some(m) => q.len() > 0 && m@ == q[0] && final(self)@ == old(
                        self,
                    )@.agent_waits_for(session_id@, q.skip(1)),
                    None => q.len() == 0 && final(self)@ == old(self)@,
                }
            }),
            (final(self)@, taken_view(r)) == old(self)@.agent_takes(session_id@),
    {
        let ghost v = self@;
        if !self.is_online(session_id) {
            return None;
        }
        match self.agent_broadcast.remove(session_id) {
            Some(c) => {
                let ChannelMap { agent, connection, browser_sessions } = c;
                match agent {
                    Some(q) => {
                        let mut q = q;
                        let r = q.pop();
                        self.agent_broadcast.insert(
                            session_id.to_owned(),
                            ChannelMap { agent: Some(q), connection, browser_sessions },
                        );
                        assert(self@.channels =~= v.agent_waits_for(session_id@, q@).channels);
                        if r.is_none() {
                            assert(self@.channels =~= v.channels);
                        }
                        r
                    },
                    None => None,
                }
            },
            None => None,
        }
    }

    /// Offers a message to a connection of the agent of a session: it is not sent where as many wait
    /// as may, nor where another connection has taken its place.
    pub fn offer_to_agent(&mut self, session_id: &str, connection: u64, m: Json) -> (r: Offer)
        ensures
            (final(self)@, r) == old(self)@.offered(session_id@, connection, m@),
    {
        let ghost v = self@;
        match self.agent_connection(session_id) {
            Some(c) => if c != connection {
                return Offer::Gone;
            },
            None => {
                return Offer::Gone;
            },
        }
        match self.agent_broadcast.remove(session_id) {
            Some(c) => {
                let ChannelMap { agent, connection, browser_sessions } = c;
                match agent {
                    Some(q) => {
                        let mut q = q;
                        let sent = q.offer(m);
                        self.agent_broadcast.insert(
                            session_id.to_owned(),
                            ChannelMap { agent: Some(q), connection, browser_sessions },
                        );
                        assert(self@.channels =~= v.agent_waits_for(session_id@, q@).channels);
                        if sent {
                            Offer::Sent
                        } else {
                            assert(self@.channels =~= v.channels);
                            Offer::Full
                        }
                    },
                    None => Offer::Gone,
                }
            },
            None => Offer::Gone,
        }
    }

    /// Takes the oldest message that waits for a stream.
    pub fn next_for_stream(&mut self, id: &str) -> (r: Option<Json>)
        ensures
            ({
                let q = old(self)@.waiting_for_stream(id@);
                match r {
                    Some(m) => q.len() > 0 && m@ == q[0] && final(self)@ == (RelayView {
                        streams: old(self)@.streams.insert(id@, q.skip(1)),
                        ..old(self)@
                    }),
                    None => q.len() == 0 && final(self)@ == old(self)@,
                }
            }),
            (final(self)@, taken_view(r)) == old(self)@.stream_takes(id@),
    {
        let ghost v = self@;
        match self.sse_sessions.remove(id) {
            Some(q) => {
                let mut q = q;
                let r = q.pop();
                self.sse_sessions.insert(id.to_owned(), q);
                assert(self@.streams =~= v.streams.insert(id@, q@));
                if r.is_none() {
                    assert(self@.streams =~= v.streams);
                }
                r
            },
            None => {
                assert(self@.streams =~= v.streams);
                None
            },
        }
    }

    /// Sends a message to one stream, if it is open.
    pub fn send_to_stream(&mut self, id: &str, m: Json)
        ensures
            final(self)@ == (RelayView {
                streams: to_stream(old(self)@.streams, id@, m@),
                ..old(self)@
            }),
    {
        let ghost v = self@;
        match self.sse_sessions.remove(id) {
            Some(q) => {
                let mut q = q;
                q.deliver(m);
                self.sse_sessions.insert(id.to_owned(), q);
                assert(self@.streams =~= to_stream(v.streams, id@, m@));
            },
            None => {
                assert(self@.streams =~= v.streams);
            },
        }
    }

    fn streams_for(&self, session_id: &str, target: Option<&str>) -> (r: Vec<String>)
        ensures
            texts_view(r@) == if self@.channels.contains_key(session_id@) {
                target_streams(
                    self@.channels[session_id@].browsers,
                    crate::text::opt_str(target),
                )
            } else {
                Seq::empty()
            },
    {
        let mut r: Vec<String> = Vec::new();
        match self.agent_broadcast.get(session_id) {
            None => {
                assert(texts_view(r@) =~= Seq::<Seq<char>>::empty());
                r
            },
            Some(c) => {
                let n = c.browser_sessions.len();
                let ghost all = c.browser_sessions.entries();
                let ghost t = crate::text::opt_str(target);
                let mut i: usize = 0;
                assert(all.take(0) =~= Seq::<(Seq<char>, Seq<char>)>::empty());
                assert(texts_view(r@) =~= target_streams(all.take(0), t));
                while i < n
                    invariant
                        i <= n,
                        n == all.len(),
                        n == c.browser_sessions.keys().len(),
                        all == c.browser_sessions.entries(),
                        t == crate::text::opt_str(target),
                        forall|j: int|
                            0 <= j < n ==> (#[trigger] all[j]) == (
                                c.browser_sessions.keys()[j],
                                c.browser_sessions@[c.browser_sessions.keys()[j]],
                            ),
                        texts_view(r@) == target_streams(all.take(i as int), t),
                    decreases n - i,
                {
                    let user = c.browser_sessions.key_at(i);
                    let stream = c.browser_sessions.value_at(i);
                    let meant = match target {
                        Some(u) => str_eq(u, user.as_str()),
                        None => true,
                    };
                    assert(all.take(i + 1).drop_last() =~= all.take(i as int));
                    assert(all.take(i + 1).last() == all[i as int]);
                    if meant {
                        let ghost before = r@;
                        r.push(stream.clone());
                        assert(texts_view(r@) =~= texts_view(before).push(all[i as int].1));
                    }
                    i = i + 1;
                }
                assert(all.take(n as int) =~= all);
                r
            },
        }
    }

    /// Sends a message to the browsers of a session: to the user it is for, or else to all.
    pub fn send_to_browsers(&mut self, session_id: &str, target: Option<&str>, m: &Json)
        ensures
            final(self)@ == old(self)@.to_browsers(session_id@, crate::text::opt_str(target), m@),
    {
        let ghost v = self@;
        let ids = self.streams_for(session_id, target);
        let ghost all = texts_view(ids@);
        let mut i: usize = 0;
        assert(all.take(0) =~= Seq::<Seq<char>>::empty());
        while i < ids.len()
            invariant
                i <= ids@.len(),
                all == texts_view(ids@),
                self@ == (RelayView {
                    streams: fan_out(v.streams, all.take(i as int), m@),
                    ..v
                }),
            decreases ids@.len() - i,
        {
            self.send_to_stream(ids[i].as_str(), m.copy());
            assert(all.take(i + 1).drop_last() =~= all.take(i as int));
            assert(all.take(i + 1).last() == ids@[i as int]@);
            i = i + 1;
        }
        assert(all.take(all.len() as int) =~= all);
        assert(self@ =~= v.to_browsers(session_id@, crate::text::opt_str(target), m@));
    }

    /// Notes that a session was heard of.
    pub fn touch(&mut self, session_id: &str, now: u128)
        ensures
            final(self)@ == old(self)@.touch(session_id@, now),
    {
        self.last_activity.insert(session_id.to_owned(), now);
    }

    /// The time on the relay's clock.
    pub fn now(&self) -> (n: u128)
        ensures
            n <= MAX_NANOS,
    {
        self.started_at.nanos()
    }
}

} // verus!
