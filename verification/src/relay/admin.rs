//! The admin panel: logins, and what an administrator sees and changes.
use axum::http::HeaderMap;
use vstd::prelude::*;

use crate::chance::{generate_token, is_hex};
use crate::clock::{MAX_NANOS, NANOS_PER_SEC};
use crate::json::{items_view, lemma_items_view, Json, JsonView};
use crate::outside::header_text;
use crate::proto::Permission;
use crate::relay::auth::{constant_time_eq, header};
use crate::relay::queue::MessageQueue;
use crate::relay::recorder::Recorder;
use crate::relay::session::{
    all_tokens, lists, opt_tokens, removed_session_is_closed, SessionInfo,
};
use crate::relay::state::{bare, json_reply, Body, RelayView, Reply, ReplyView, SharedState};
use crate::relay::ws::{error_reply, refuse, tokens_doc, tokens_json};
use crate::strmap::{values_where, StrMap};
use crate::text::{
    as_opt, decimal, decimal_u64, eq_ignore_case, join2, join3, opt_str, opt_text,
    same_ignoring_case, split, split_on, strip_prefix, stripped, texts_view, trim, trimmed,
};

verus! {

/// The name of a permission.
pub open spec fn perm_name(p: Permission) -> Seq<char> {
    match p {
        Permission::ReadWrite => "rw"@,
        Permission::ReadOnly => "ro"@,
    }
}

pub fn perm_str(p: &Permission) -> (r: &'static str)
    ensures
        r@ == perm_name(*p),
{
    match p {
        Permission::ReadWrite => "rw",
        Permission::ReadOnly => "ro",
    }
}

/// The permission that a name asks for: read-only for `ro` in any case, else read-write.
pub open spec fn perm_named(s: Seq<char>) -> Permission {
    if same_ignoring_case(s, "ro"@) {
        Permission::ReadOnly
    } else {
        Permission::ReadWrite
    }
}

pub fn parse_perm(s: &str) -> (r: Permission)
    ensures
        r == perm_named(s@),
{
    if eq_ignore_case(s, "ro") {
        Permission::ReadOnly
    } else {
        Permission::ReadWrite
    }
}

/// A permission is read back from its name.
pub proof fn permission_names(p: Permission)
    ensures
        perm_named(perm_name(p)) == p,
{
    reveal_strlit("rw");
    reveal_strlit("ro");
    assert("rw"@[1] == 'w' && "ro"@[1] == 'o');
}

/// A fresh admin login: 32 random bytes in hexadecimal.
pub fn generate_admin_token() -> (t: String)
    ensures
        is_hex(t@, 64),
{
    generate_token()
}

/// How long an admin login lasts, in seconds.
pub const ADMIN_SESSION_TTL: u64 = 43200;

/// The value of the first `sr_admin` cookie among parts of a cookie header.
pub open spec fn first_cookie(parts: Seq<Seq<char>>) -> Option<Seq<char>>
    decreases parts.len(),
{
    if parts.len() == 0 {
        None
    } else {
        match stripped(trimmed(parts[0]), "sr_admin="@) {
            Some(v) => Some(v),
            None => first_cookie(parts.skip(1)),
        }
    }
}

/// The login that a cookie header carries.
pub open spec fn cookie_login(cookie: Option<Seq<char>>) -> Option<Seq<char>> {
    match cookie {
        Some(c) => first_cookie(split_on(c, ';')),
        None => None,
    }
}

/// Finds the value of the `sr_admin` cookie in a cookie header.
pub fn admin_cookie_in(cookie: &str) -> (r: Option<String>)
    ensures
        opt_text(r) == cookie_login(Some(cookie@)),
{
    let parts = split(cookie, ';');
    let ghost all = texts_view(parts@);
    let mut i: usize = 0;
    assert(all.skip(0) =~= all);
    while i < parts.len()
        invariant
            i <= parts@.len(),
            all == texts_view(parts@),
            all == split_on(cookie@, ';'),
            first_cookie(all.skip(i as int)) == first_cookie(all),
        decreases parts@.len() - i,
    {
        assert(all.skip(i as int)[0] == parts@[i as int]@);
        assert(all.skip(i as int).skip(1) =~= all.skip(i + 1));
        match strip_prefix(trim(parts[i].as_str()), "sr_admin=") {
            Some(v) => {
                return Some(v.to_owned());
            },
            None => {},
        }
        i = i + 1;
    }
    None
}

/// Finds the login that a request carries.
pub fn admin_cookie(headers: &HeaderMap) -> (r: Option<String>)
    ensures
        opt_text(r) == cookie_login(header(*headers, "cookie"@)),
{
    match header_text(headers, "cookie") {
        Some(c) => admin_cookie_in(c.as_str()),
        None => None,
    }
}

/// The logins that have not ended.
pub open spec fn live(logins: Map<Seq<char>, u128>, now: u128) -> Map<Seq<char>, u128> {
    values_where(logins, |end: u128| end > now)
}

/// Whether a login is in force; logins that have ended are forgotten on the way.
pub open spec fn admin_check(v: RelayView, login: Option<Seq<char>>, now: u128) -> (
    RelayView,
    bool,
) {
    match login {
        None => (v, false),
        Some(t) => {
            let logins = live(v.admin_sessions, now);
            (RelayView { admin_sessions: logins, ..v }, logins.contains_key(t))
        },
    }
}

/// Whether a login is in force at the time given.
pub fn check_admin_at(state: &mut SharedState, login: Option<&str>, now: u128) -> (r: bool)
    ensures
        (final(state)@, r) == admin_check(old(state)@, opt_str(login), now),
        final(state).sessions == old(state).sessions,
{
    match login {
        None => false,
        Some(t) => {
            let lasts = |end: &u128| -> (b: bool)
                ensures
                    b == (*end > now),
                { *end > now };
            state.admin_sessions.retain(lasts, Ghost(|end: u128| end > now));
            state.admin_sessions.contains_key(t)
        },
    }
}

/// Whether a request carries a login that is in force.
pub fn check_admin(state: &mut SharedState, headers: &HeaderMap) -> (r: bool)
    ensures
        exists|now: u128| #[trigger]
            admin_check(old(state)@, cookie_login(header(*headers, "cookie"@)), now) == (
                final(state)@,
                r,
            ),
{
    let now = state.now();
    let login = admin_cookie(headers);
    check_admin_at(state, as_opt(&login), now)
}

/// The reply to a request without a login.
pub open spec fn unauthorized_reply() -> ReplyView {
    error_reply(401, "unauthorized"@)
}

pub fn unauthorized() -> (r: Reply)
    ensures
        r@ == unauthorized_reply(),
{
    refuse(401, "unauthorized")
}

/// Whether it worked.
pub open spec fn ok_doc(ok: bool) -> JsonView {
    JsonView::object().with("ok"@, JsonView::Bool(ok))
}

/// The reply that it did not work, and why.
pub open spec fn failed_reply(status: u16, error: Seq<char>) -> ReplyView {
    json_reply(status, ok_doc(false).with_str("error"@, error))
}

fn ok_json(ok: bool) -> (r: Json)
    ensures
        r@ == ok_doc(ok),
{
    Json::object().with("ok", Json::Bool(ok))
}

fn failed(status: u16, why: &str) -> (r: Reply)
    ensures
        r@ == failed_reply(status, why@),
{
    Reply::json(status, ok_json(false).with_str("error", why))
}

/// The cookie that a login is given.
pub open spec fn login_cookie(token: Seq<char>) -> Seq<char> {
    "sr_admin="@ + token + "; Path=/; HttpOnly; SameSite=Strict; Max-Age="@ + decimal(
        ADMIN_SESSION_TTL as nat,
    )
}

/// When a login made now ends.
pub open spec fn login_end(now: u128) -> int {
    now + ADMIN_SESSION_TTL * NANOS_PER_SEC
}

/// What the relay does with a login. The name and the password must be the administrator's; the
/// login then lasts for twelve hours.
pub open spec fn login(v: RelayView, body: JsonView, now: u128, token: Seq<char>) -> (
    RelayView,
    ReplyView,
) {
    if body.str_or("user"@, ""@) == v.admin_user && body.str_or("pass"@, ""@) == v.admin_pass {
        (
            RelayView {
                admin_sessions: v.admin_sessions.insert(token, login_end(now) as u128),
                ..v
            },
            ReplyView { set_cookie: Some(login_cookie(token)), ..json_reply(200, ok_doc(true)) },
        )
    } else {
        (v, failed_reply(401, "invalid credentials"@))
    }
}

/// Takes a login, with the time and the token given.
pub fn login_with(state: &mut SharedState, body: &Json, now: u128, token: String) -> (r: Reply)
    requires
        login_end(now) <= u128::MAX,
    ensures
        (final(state)@, r@) == login(old(state)@, body@, now, token@),
{
    if constant_time_eq(body.str_or("user", ""), state.admin_user.as_str()) && constant_time_eq(
        body.str_or("pass", ""),
        state.admin_pass.as_str(),
    ) {
        let cookie = join2(
            join3("sr_admin=", token.as_str(), "; Path=/; HttpOnly; SameSite=Strict; Max-Age=").as_str(),
            decimal_u64(ADMIN_SESSION_TTL).as_str(),
        );
        state.admin_sessions.insert(token, now + ADMIN_SESSION_TTL as u128 * NANOS_PER_SEC);
        Reply { status: 200, body: Body::Json(ok_json(true)), set_cookie: Some(cookie) }
    } else {
        failed(401, "invalid credentials")
    }
}

/// Takes a login.
pub fn login_handler(state: &mut SharedState, body: &Json) -> (r: Reply)
    ensures
        exists|now: u128, token: Seq<char>| #[trigger]
            login(old(state)@, body@, now, token) == (final(state)@, r@) && now <= MAX_NANOS
                && is_hex(token, 64),
{
    let now = state.now();
    let token = generate_admin_token();
    login_with(state, body, now, token)
}

/// The cookie that ends a login.
pub open spec fn logout_cookie() -> Seq<char> {
    "sr_admin=; Path=/; HttpOnly; SameSite=Strict; Max-Age=0"@
}

/// What the relay does with a logout.
pub open spec fn logout(v: RelayView, login: Option<Seq<char>>) -> (RelayView, ReplyView) {
    let reply = ReplyView { set_cookie: Some(logout_cookie()), ..json_reply(200, ok_doc(true)) };
    match login {
        Some(t) => (RelayView { admin_sessions: v.admin_sessions.remove(t), ..v }, reply),
        None => (v, reply),
    }
}

/// Ends the login given.
pub fn logout_of(state: &mut SharedState, login: Option<&str>) -> (r: Reply)
    ensures
        (final(state)@, r@) == logout(old(state)@, opt_str(login)),
{
    match login {
        Some(t) => {
            let _ = state.admin_sessions.remove(t);
        },
        None => {},
    }
    Reply {
        status: 200,
        body: Body::Json(ok_json(true)),
        set_cookie: Some("sr_admin=; Path=/; HttpOnly; SameSite=Strict; Max-Age=0".to_owned()),
    }
}

/// Ends the login that a request carries.
pub fn logout_handler(state: &mut SharedState, headers: &HeaderMap) -> (r: Reply)
    ensures
        (final(state)@, r@) == logout(old(state)@, cookie_login(header(*headers, "cookie"@))),
{
    match admin_cookie(headers) {
        Some(t) => logout_of(state, Some(t.as_str())),
        None => logout_of(state, None),
    }
}

// ---- what an administrator sees ----
/// The labels of a session, as documents name them.
pub open spec fn texts_doc(texts: Seq<Seq<char>>) -> JsonView {
    JsonView::Arr(texts.map_values(|t: Seq<char>| JsonView::Str(t)))
}

fn texts_json(texts: &Vec<String>) -> (r: Json)
    ensures
        r@ == texts_doc(texts_view(texts@)),
{
    let mut items: Vec<Json> = Vec::new();
    let mut i: usize = 0;
    while i < texts.len()
        invariant
            i <= texts@.len(),
            items@.len() == i,
            forall|j: int| 0 <= j < i ==> (#[trigger] items@[j])@ == JsonView::Str(texts@[j]@),
        decreases texts@.len() - i,
    {
        items.push(Json::text(texts[i].as_str()));
        i = i + 1;
    }
    proof {
        lemma_items_view(items@);
        assert(items_view(items@) =~= texts_view(texts@).map_values(
            |t: Seq<char>| JsonView::Str(t),
        ));
    }
    Json::Arr(items)
}

/// A text, or null.
pub open spec fn text_or_null(t: Option<Seq<char>>) -> JsonView {
    match t {
        Some(s) => JsonView::Str(s),
        None => JsonView::Null,
    }
}

/// How many browsers a session has.
pub open spec fn browser_count(v: RelayView, sid: Seq<char>) -> nat {
    if v.channels.contains_key(sid) {
        v.channels[sid].browsers.len()
    } else {
        0
    }
}

/// Whether a session is being recorded.
pub open spec fn is_recorded(v: RelayView, sid: Seq<char>) -> bool {
    v.recorder is Some && (v.recorder->0).open.contains(sid)
}

/// What the overview says of a session.
pub open spec fn session_doc(v: RelayView, sid: Seq<char>) -> JsonView {
    let s = v.registry.sessions[sid];
    JsonView::object().with_str("session_id"@, sid).with(
        "online"@,
        JsonView::Bool(v.online(sid)),
    ).with("is_temporary"@, JsonView::Bool(s.is_temporary)).with(
        "fixed_key"@,
        text_or_null(s.fixed_key),
    ).with("browser_count"@, JsonView::Int(browser_count(v, sid) as int)).with(
        "tokens"@,
        tokens_doc(s.tokens),
    ).with("tags"@, texts_doc(s.tags)).with("recording"@, JsonView::Bool(is_recorded(v, sid)))
}

/// How many of the sessions have a connected agent.
pub open spec fn online_count(v: RelayView, ids: Seq<Seq<char>>) -> nat
    decreases ids.len(),
{
    if ids.len() == 0 {
        0
    } else {
        online_count(v, ids.drop_last()) + if v.online(ids.last()) {
            1nat
        } else {
            0nat
        }
    }
}

/// How many browsers the sessions have together.
pub open spec fn browser_total(v: RelayView, ids: Seq<Seq<char>>) -> nat
    decreases ids.len(),
{
    if ids.len() == 0 {
        0
    } else {
        browser_total(v, ids.drop_last()) + browser_count(v, ids.last())
    }
}

/// What an administrator sees of the relay, with its sessions in the order `ids`.
pub open spec fn overview_doc(
    v: RelayView,
    ids: Seq<Seq<char>>,
    version: Seq<char>,
    now: u128,
) -> JsonView {
    JsonView::object().with_str("version"@, version).with(
        "uptime_seconds"@,
        JsonView::Int((now / NANOS_PER_SEC) as int),
    ).with("agent_count"@, JsonView::Int(ids.len() as int)).with(
        "agent_online"@,
        JsonView::Int(online_count(v, ids) as int),
    ).with("browser_count"@, JsonView::Int(browser_total(v, ids) as int)).with(
        "sessions"@,
        JsonView::Arr(ids.map_values(|sid: Seq<char>| session_doc(v, sid))),
    )
}

/// Every session once, in some order.
pub open spec fn all_sessions(v: RelayView, ids: Seq<Seq<char>>) -> bool {
    ids.no_duplicates() && ids.to_set() == v.registry.sessions.dom()
}

fn session_json(state: &SharedState, sid: &String, info: &SessionInfo, browsers: usize) -> (r: Json)
    requires
        state@.registry.sessions[sid@] == info@,
        browsers == browser_count(state@, sid@),
    ensures
        r@ == session_doc(state@, sid@),
{
    let recording = match &state.recorder {
        Some(rec) => rec.is_recording(sid.as_str()),
        None => false,
    };
    let fixed_key = match &info.fixed_key {
        Some(k) => Json::text(k.as_str()),
        None => Json::Null,
    };
    Json::object().with_str("session_id", sid.as_str()).with(
        "online",
        Json::Bool(state.is_online(sid.as_str())),
    ).with("is_temporary", Json::Bool(info.is_temporary)).with("fixed_key", fixed_key).with(
        "browser_count",
        Json::Int(browsers as i128),
    ).with("tokens", tokens_json(&info.tokens)).with("tags", texts_json(&info.tags)).with(
        "recording",
        Json::Bool(recording),
    )
}

/// What an administrator is told of the relay. Where the browsers are more than can be counted the
/// reply is an internal error.
pub open spec fn overview_reply(
    v: RelayView,
    ids: Seq<Seq<char>>,
    version: Seq<char>,
    now: u128,
) -> ReplyView {
    if browser_total(v, ids) > usize::MAX {
        bare(500)
    } else {
        json_reply(200, overview_doc(v, ids, version, now))
    }
}

proof fn lemma_browser_total_monotone(v: RelayView, ids: Seq<Seq<char>>, i: int)
    requires
        0 <= i <= ids.len(),
    ensures
        browser_total(v, ids.take(i)) <= browser_total(v, ids),
    decreases ids.len() - i,
{
    if i < ids.len() {
        lemma_browser_total_monotone(v, ids, i + 1);
        assert(ids.take(i + 1).drop_last() =~= ids.take(i));
    } else {
        assert(ids.take(i) =~= ids);
    }
}

/// Tells an administrator of the relay.
pub fn overview(state: &SharedState, version: &str, now: u128) -> (r: Reply)
    requires
        now <= MAX_NANOS,
    ensures
        r@ == overview_reply(state@, state.sessions.order(), version@, now),
        all_sessions(state@, state.sessions.order()),
{
    let sessions = state.sessions.list_sessions();
    let ghost v = state@;
    let ghost ids = state.sessions.order();
    let n = sessions.len();
    let mut items: Vec<Json> = Vec::new();
    let mut online: usize = 0;
    let mut browsers: usize = 0;
    let mut i: usize = 0;
    assert(ids.take(0) =~= Seq::<Seq<char>>::empty());
    while i < n
        invariant
            i <= n,
            n == sessions@.len(),
            n == ids.len(),
            v == state@,
            ids == state.sessions.order(),
            all_sessions(v, ids),
            forall|j: int|
                0 <= j < n ==> (#[trigger] sessions@[j]).0@ == ids[j] && sessions@[j].1@
                    == v.registry.sessions[ids[j]],
            items@.len() == i,
            forall|j: int| 0 <= j < i ==> (#[trigger] items@[j])@ == session_doc(v, ids[j]),
            online == online_count(v, ids.take(i as int)),
            online <= i,
            browsers == browser_total(v, ids.take(i as int)),
        decreases n - i,
    {
        let sid = &sessions[i].0;
        let count: usize = match state.agent_broadcast.get(sid.as_str()) {
            Some(c) => c.browser_sessions.len(),
            None => 0,
        };
        proof {
            assert(ids.take(i + 1).drop_last() =~= ids.take(i as int));
            assert(ids.take(i + 1).last() == ids[i as int]);
            lemma_browser_total_monotone(v, ids, i + 1);
        }
        if usize::MAX - browsers < count {
            return Reply::bare(500);
        }
        browsers = browsers + count;
        if state.is_online(sid.as_str()) {
            online = online + 1;
        }
        items.push(session_json(state, sid, &sessions[i].1, count));
        i = i + 1;
    }
    proof {
        assert(ids.take(n as int) =~= ids);
        lemma_items_view(items@);
        assert(items_view(items@) =~= ids.map_values(|sid: Seq<char>| session_doc(v, sid)));
    }
    Reply::json(
        200,
        Json::object().with_str("version", version).with(
            "uptime_seconds",
            Json::Int((now / NANOS_PER_SEC) as i128),
        ).with("agent_count", Json::Int(n as i128)).with(
            "agent_online",
            Json::Int(online as i128),
        ).with("browser_count", Json::Int(browsers as i128)).with("sessions", Json::Arr(items)),
    )
}

/// As `overview_handler`, with the login and the time given.
pub fn overview_at(
    state: &mut SharedState,
    login: Option<&str>,
    version: &str,
    now: u128,
) -> (r: Reply)
    requires
        now <= MAX_NANOS,
    ensures
        (final(state)@, r@) == overview_step(
            old(state)@,
            opt_str(login),
            version@,
            old(state).sessions.order(),
            now,
        ),
        admin_check(old(state)@, opt_str(login), now).1 ==> all_sessions(
            old(state)@,
            old(state).sessions.order(),
        ),
{
    if check_admin_at(state, login, now) {
        overview(state, version, now)
    } else {
        unauthorized()
    }
}

/// Tells an administrator of the relay. `version` is the relay's own.
pub fn overview_handler(state: &mut SharedState, headers: &HeaderMap, version: &str) -> (r: Reply)
    ensures
        exists|now: u128| #[trigger]
            overview_step(
                old(state)@,
                cookie_login(header(*headers, "cookie"@)),
                version@,
                old(state).sessions.order(),
                now,
            ) == (final(state)@, r@) && (admin_check(
                old(state)@,
                cookie_login(header(*headers, "cookie"@)),
                now,
            ).1 ==> all_sessions(old(state)@, old(state).sessions.order())),
{
    let now = state.now();
    let login = admin_cookie(headers);
    overview_at(state, as_opt(&login), version, now)
}

/// What the relay does with a request for the overview.
pub open spec fn overview_step(
    v: RelayView,
    login: Option<Seq<char>>,
    version: Seq<char>,
    ids: Seq<Seq<char>>,
    now: u128,
) -> (RelayView, ReplyView) {
    let (v1, admitted) = admin_check(v, login, now);
    if admitted {
        (v1, overview_reply(v1, ids, version, now))
    } else {
        (v1, unauthorized_reply())
    }
}

// ---- what an administrator changes ----
/// Whether a stream is one of the browsers'.
pub open spec fn is_stream_of(browsers: Seq<(Seq<char>, Seq<char>)>, id: Seq<char>) -> bool {
    exists|i: int| 0 <= i < browsers.len() && (#[trigger] browsers[i]).1 == id
}

/// The streams that are none of the browsers'.
pub open spec fn without_browsers(
    streams: Map<Seq<char>, Seq<JsonView>>,
    browsers: Seq<(Seq<char>, Seq<char>)>,
) -> Map<Seq<char>, Seq<JsonView>> {
    Map::new(
        |id: Seq<char>| streams.contains_key(id) && !is_stream_of(browsers, id),
        |id: Seq<char>| streams[id],
    )
}

/// The relay without a session: its agent and its browsers are cut off, its tokens open nothing,
/// its events are forgotten and its recording ends.
pub open spec fn kicked(v: RelayView, sid: Seq<char>) -> RelayView {
    RelayView {
        streams: if v.channels.contains_key(sid) {
            without_browsers(v.streams, v.channels[sid].browsers)
        } else {
            v.streams
        },
        channels: v.channels.remove(sid),
        registry: v.registry.remove(sid),
        buffers: v.buffers.remove(sid),
        last_activity: v.last_activity.remove(sid),
        recorder: match v.recorder {
            Some(r) => Some(r.close(sid)),
            None => None,
        },
        ..v
    }
}

/// Ends the recording of a session.
pub fn close_recording(state: &mut SharedState, session_id: &str)
    ensures
        final(state)@ == (RelayView {
            recorder: match old(state)@.recorder {
                Some(r) => Some(r.close(session_id@)),
                None => None,
            },
            ..old(state)@
        }),
{
    let mut recorder: Option<Recorder> = None;
    std::mem::swap(&mut recorder, &mut state.recorder);
    state.recorder = match recorder {
        Some(r) => {
            let mut r = r;
            r.close(session_id);
            Some(r)
        },
        None => None,
    };
}

fn close_streams(streams: &mut StrMap<MessageQueue>, browsers: &StrMap<String>)
    ensures
        final(streams)@ == without_browsers(old(streams)@, browsers.entries()),
{
    let n = browsers.len();
    let ghost all = browsers.entries();
    let mut i: usize = 0;
    assert(streams@ =~= without_browsers(old(streams)@, all.take(0)));
    while i < n
        invariant
            i <= n,
            n == all.len(),
            n == browsers.keys().len(),
            all == browsers.entries(),
            forall|j: int|
                0 <= j < n ==> (#[trigger] all[j]) == (
                    browsers.keys()[j],
                    browsers@[browsers.keys()[j]],
                ),
            streams@ == without_browsers(old(streams)@, all.take(i as int)),
        decreases n - i,
    {
        let id = browsers.value_at(i);
        let _ = streams.remove(id.as_str());
        proof {
            let a = all.take(i as int);
            let b = all.take(i + 1);
            assert(b[i as int].1 == id@);
            assert forall|x: Seq<char>| #[trigger]
                is_stream_of(b, x) <==> is_stream_of(a, x) || x == id@ by {
                if is_stream_of(a, x) {
                    let k = choose|k: int| 0 <= k < a.len() && (#[trigger] a[k]).1 == x;
                    assert(b[k].1 == x);
                }
                if is_stream_of(b, x) && x != id@ {
                    let k = choose|k: int| 0 <= k < b.len() && (#[trigger] b[k]).1 == x;
                    assert(a[k].1 == x);
                }
            }
            assert(streams@ =~= without_browsers(old(streams)@, b));
        }
        i = i + 1;
    }
    assert(all.take(n as int) =~= all);
}

/// Cuts a session off.
pub fn kick(state: &mut SharedState, session_id: &str)
    ensures
        final(state)@ == kicked(old(state)@, session_id@),
{
    let ghost v = state@;
    match state.agent_broadcast.remove(session_id) {
        Some(c) => {
            close_streams(&mut state.sse_sessions, &c.browser_sessions);
        },
        None => {},
    }
    state.sessions.remove(session_id);
    let _ = state.agent_event_buffers.remove(session_id);
    let _ = state.last_activity.remove(session_id);
    close_recording(state, session_id);
    assert(state@ =~= kicked(v, session_id@));
}

/// What the relay does with a request to cut a session off.
pub open spec fn kick_step(
    v: RelayView,
    login: Option<Seq<char>>,
    body: JsonView,
    now: u128,
) -> (RelayView, ReplyView) {
    let (v1, admitted) = admin_check(v, login, now);
    let sid = body.str_or("session_id"@, ""@);
    if !admitted {
        (v1, unauthorized_reply())
    } else if sid.len() == 0 {
        (v1, failed_reply(400, "missing session_id"@))
    } else {
        (kicked(v1, sid), json_reply(200, ok_doc(true)))
    }
}

/// As `kick_handler`, with the login and the time given.
pub fn kick_at(
    state: &mut SharedState,
    login: Option<&str>,
    body: &Json,
    now: u128,
) -> (r: Reply)
    ensures
        (final(state)@, r@) == kick_step(
            old(state)@,
            opt_str(login),
            body@,
            now,
        ),
{
    if !check_admin_at(state, login, now) {
        return unauthorized();
    }
    let sid = body.str_or("session_id", "");
    if sid.is_empty() {
        return failed(400, "missing session_id");
    }
    kick(state, sid);
    Reply::json(200, ok_json(true))
}

/// Cuts the session off that a request names.
pub fn kick_handler(state: &mut SharedState, headers: &HeaderMap, body: &Json) -> (r: Reply)
    ensures
        exists|now: u128| #[trigger]
            kick_step(
                old(state)@,
                cookie_login(header(*headers, "cookie"@)),
                body@,
                now,
            ) == (final(state)@, r@),
{
    let now = state.now();
    let login = admin_cookie(headers);
    kick_at(state, as_opt(&login), body, now)
}

/// What the relay does with a request to revoke a token.
pub open spec fn revoke_step(
    v: RelayView,
    login: Option<Seq<char>>,
    body: JsonView,
    now: u128,
) -> (RelayView, ReplyView) {
    let (v1, admitted) = admin_check(v, login, now);
    let token = body.str_or("token"@, ""@);
    if !admitted {
        (v1, unauthorized_reply())
    } else if token.len() == 0 {
        (v1, failed_reply(400, "missing token"@))
    } else {
        (
            RelayView { registry: v1.registry.revoke_token(token), ..v1 },
            json_reply(200, ok_doc(v1.registry.token_map.contains_key(token))),
        )
    }
}

/// As `revoke_handler`, with the login and the time given.
pub fn revoke_at(
    state: &mut SharedState,
    login: Option<&str>,
    body: &Json,
    now: u128,
) -> (r: Reply)
    ensures
        (final(state)@, r@) == revoke_step(
            old(state)@,
            opt_str(login),
            body@,
            now,
        ),
{
    if !check_admin_at(state, login, now) {
        return unauthorized();
    }
    let token = body.str_or("token", "");
    if token.is_empty() {
        return failed(400, "missing token");
    }
    let ok = state.sessions.revoke_token(token);
    Reply::json(200, ok_json(ok))
}

/// Revokes the token that a request names.
pub fn revoke_handler(state: &mut SharedState, headers: &HeaderMap, body: &Json) -> (r: Reply)
    ensures
        exists|now: u128| #[trigger]
            revoke_step(
                old(state)@,
                cookie_login(header(*headers, "cookie"@)),
                body@,
                now,
            ) == (final(state)@, r@),
{
    let now = state.now();
    let login = admin_cookie(headers);
    revoke_at(state, as_opt(&login), body, now)
}

/// What the relay does with a request for fresh tokens.
pub open spec fn regenerate_step(
    v: RelayView,
    login: Option<Seq<char>>,
    body: JsonView,
    now: u128,
    fresh: Seq<Seq<char>>,
) -> (RelayView, ReplyView) {
    let (v1, admitted) = admin_check(v, login, now);
    let sid = body.str_or("session_id"@, ""@);
    if !admitted {
        (v1, unauthorized_reply())
    } else if sid.len() == 0 {
        (v1, failed_reply(400, "missing session_id"@))
    } else {
        let (registry, result) = v1.registry.regenerate_session(sid, fresh);
        match result {
            Some(toks) => (
                RelayView { registry, ..v1 },
                json_reply(200, ok_doc(true).with("tokens"@, tokens_doc(toks))),
            ),
            None => (v1, failed_reply(404, "session not found"@)),
        }
    }
}

/// As `regenerate_handler`, with the login and the time given.
pub fn regenerate_at(
    state: &mut SharedState,
    login: Option<&str>,
    body: &Json,
    now: u128,
) -> (r: Reply)
    ensures
        exists|fresh: Seq<Seq<char>>| #[trigger]
            regenerate_step(old(state)@, opt_str(login), body@, now, fresh) == (final(state)@, r@)
                && (r.status == 200 ==> all_tokens(
                fresh,
                old(state)@.registry.slots(body@.str_or("session_id"@, ""@)),
            )),
{
    let ghost none = regenerate_step(state@, opt_str(login), body@, now, Seq::empty());
    if !check_admin_at(state, login, now) {
        return unauthorized();
    }
    let sid = body.str_or("session_id", "");
    if sid.is_empty() {
        return failed(400, "missing session_id");
    }
    let ghost before = state@.registry;
    let result = state.sessions.regenerate_session(sid);
    let ghost fresh = choose|fresh: Seq<Seq<char>>| #[trigger]
        all_tokens(fresh, before.slots(sid@)) && (state@.registry, opt_tokens(result))
            == before.regenerate_session(sid@, fresh);
    let ghost step = regenerate_step(old(state)@, opt_str(login), body@, now, fresh);
    match result {
        Some(tokens) => Reply::json(
            200,
            ok_json(true).with("tokens", tokens_json(&tokens)),
        ),
        None => failed(404, "session not found"),
    }
}

/// Gives the session that a request names fresh tokens.
pub fn regenerate_handler(state: &mut SharedState, headers: &HeaderMap, body: &Json) -> (r: Reply)
    ensures
        exists|now: u128, fresh: Seq<Seq<char>>| #[trigger]
            regenerate_step(
                old(state)@,
                cookie_login(header(*headers, "cookie"@)),
                body@,
                now,
                fresh,
            ) == (final(state)@, r@) && (r.status == 200 ==> all_tokens(
                fresh,
                old(state)@.registry.slots(body@.str_or("session_id"@, ""@)),
            )),
{
    let now = state.now();
    let login = admin_cookie(headers);
    regenerate_at(state, as_opt(&login), body, now)
}

/// What the relay does with a request to change what a token allows.
pub open spec fn permission_step(
    v: RelayView,
    login: Option<Seq<char>>,
    body: JsonView,
    now: u128,
) -> (RelayView, ReplyView) {
    let (v1, admitted) = admin_check(v, login, now);
    let token = body.str_or("token"@, ""@);
    let perm = perm_named(body.str_or("permission"@, "rw"@));
    if !admitted {
        (v1, unauthorized_reply())
    } else if token.len() == 0 {
        (v1, failed_reply(400, "missing token"@))
    } else {
        (
            RelayView { registry: v1.registry.set_token_permission(token, perm), ..v1 },
            json_reply(200, ok_doc(v1.registry.token_map.contains_key(token))),
        )
    }
}

/// As `permission_handler`, with the login and the time given.
pub fn permission_at(
    state: &mut SharedState,
    login: Option<&str>,
    body: &Json,
    now: u128,
) -> (r: Reply)
    ensures
        (final(state)@, r@) == permission_step(
            old(state)@,
            opt_str(login),
            body@,
            now,
        ),
{
    if !check_admin_at(state, login, now) {
        return unauthorized();
    }
    let token = body.str_or("token", "");
    if token.is_empty() {
        return failed(400, "missing token");
    }
    let perm = parse_perm(body.str_or("permission", "rw"));
    let ok = state.sessions.set_token_permission(token, perm);
    Reply::json(200, ok_json(ok))
}

/// Changes what the token that a request names allows.
pub fn permission_handler(state: &mut SharedState, headers: &HeaderMap, body: &Json) -> (r: Reply)
    ensures
        exists|now: u128| #[trigger]
            permission_step(
                old(state)@,
                cookie_login(header(*headers, "cookie"@)),
                body@,
                now,
            ) == (final(state)@, r@),
{
    let now = state.now();
    let login = admin_cookie(headers);
    permission_at(state, as_opt(&login), body, now)
}

/// What the relay does with a request to label a session, or to take a label off it.
pub open spec fn tag_step(
    v: RelayView,
    login: Option<Seq<char>>,
    body: JsonView,
    now: u128,
    on: bool,
) -> (RelayView, ReplyView) {
    let (v1, admitted) = admin_check(v, login, now);
    let sid = body.str_or("session_id"@, ""@);
    let tag = body.str_or("tag"@, ""@);
    if !admitted {
        (v1, unauthorized_reply())
    } else if sid.len() == 0 || trimmed(tag).len() == 0 {
        (v1, failed_reply(400, "missing session_id or tag"@))
    } else {
        let (registry, ok) = if on {
            v1.registry.add_tag(sid, tag)
        } else {
            v1.registry.remove_tag(sid, tag)
        };
        (RelayView { registry, ..v1 }, json_reply(200, ok_doc(ok)))
    }
}

/// As `add_tag_handler`, with the login and the time given.
pub fn add_tag_at(
    state: &mut SharedState,
    login: Option<&str>,
    body: &Json,
    now: u128,
) -> (r: Reply)
    ensures
        (final(state)@, r@) == tag_step(
            old(state)@,
            opt_str(login),
            body@,
            now,
            true,
        ),
{
    if !check_admin_at(state, login, now) {
        return unauthorized();
    }
    let sid = body.str_or("session_id", "");
    let tag = body.str_or("tag", "");
    if sid.is_empty() || trim(tag).is_empty() {
        return failed(400, "missing session_id or tag");
    }
    let ok = state.sessions.add_tag(sid, tag);
    Reply::json(200, ok_json(ok))
}

/// Labels the session that a request names.
pub fn add_tag_handler(state: &mut SharedState, headers: &HeaderMap, body: &Json) -> (r: Reply)
    ensures
        exists|now: u128| #[trigger]
            tag_step(
                old(state)@,
                cookie_login(header(*headers, "cookie"@)),
                body@,
                now,
                true,
            ) == (final(state)@, r@),
{
    let now = state.now();
    let login = admin_cookie(headers);
    add_tag_at(state, as_opt(&login), body, now)
}

/// As `remove_tag_handler`, with the login and the time given.
pub fn remove_tag_at(
    state: &mut SharedState,
    login: Option<&str>,
    body: &Json,
    now: u128,
) -> (r: Reply)
    ensures
        (final(state)@, r@) == tag_step(
            old(state)@,
            opt_str(login),
            body@,
            now,
            false,
        ),
{
    if !check_admin_at(state, login, now) {
        return unauthorized();
    }
    let sid = body.str_or("session_id", "");
    let tag = body.str_or("tag", "");
    if sid.is_empty() || trim(tag).is_empty() {
        return failed(400, "missing session_id or tag");
    }
    let ok = state.sessions.remove_tag(sid, tag);
    Reply::json(200, ok_json(ok))
}

/// Takes a label off the session that a request names.
pub fn remove_tag_handler(state: &mut SharedState, headers: &HeaderMap, body: &Json) -> (r: Reply)
    ensures
        exists|now: u128| #[trigger]
            tag_step(
                old(state)@,
                cookie_login(header(*headers, "cookie"@)),
                body@,
                now,
                false,
            ) == (final(state)@, r@),
{
    let now = state.now();
    let login = admin_cookie(headers);
    remove_tag_at(state, as_opt(&login), body, now)
}

/// What the relay does with a request for the server password.
pub open spec fn get_auth_step(v: RelayView, login: Option<Seq<char>>, now: u128) -> (
    RelayView,
    ReplyView,
) {
    let (v1, admitted) = admin_check(v, login, now);
    if admitted {
        (v1, json_reply(200, JsonView::object().with_str("server_auth"@, v1.server_auth)))
    } else {
        (v1, unauthorized_reply())
    }
}

/// As `get_server_auth_handler`, with the login and the time given.
pub fn get_server_auth_at(
    state: &mut SharedState,
    login: Option<&str>,
    now: u128,
) -> (r: Reply)
    ensures
        (final(state)@, r@) == get_auth_step(
            old(state)@,
            opt_str(login),
            now,
        ),
{
    if !check_admin_at(state, login, now) {
        return unauthorized();
    }
    Reply::json(200, Json::object().with_str("server_auth", state.server_auth.as_str()))
}

/// Tells an administrator the server password.
pub fn get_server_auth_handler(state: &mut SharedState, headers: &HeaderMap) -> (r: Reply)
    ensures
        exists|now: u128| #[trigger]
            get_auth_step(
                old(state)@,
                cookie_login(header(*headers, "cookie"@)),
                now,
            ) == (final(state)@, r@),
{
    let now = state.now();
    let login = admin_cookie(headers);
    get_server_auth_at(state, as_opt(&login), now)
}

/// What the relay does with a request to change the server password.
pub open spec fn set_auth_step(
    v: RelayView,
    login: Option<Seq<char>>,
    body: JsonView,
    now: u128,
) -> (RelayView, ReplyView) {
    let (v1, admitted) = admin_check(v, login, now);
    let password = body.str_or("password"@, ""@);
    if !admitted {
        (v1, unauthorized_reply())
    } else if password.len() == 0 {
        (v1, failed_reply(400, "missing password"@))
    } else {
        (RelayView { server_auth: password, ..v1 }, json_reply(200, ok_doc(true)))
    }
}

/// As `set_server_auth_handler`, with the login and the time given.
pub fn set_server_auth_at(
    state: &mut SharedState,
    login: Option<&str>,
    body: &Json,
    now: u128,
) -> (r: Reply)
    ensures
        (final(state)@, r@) == set_auth_step(
            old(state)@,
            opt_str(login),
            body@,
            now,
        ),
{
    if !check_admin_at(state, login, now) {
        return unauthorized();
    }
    let password = body.str_or("password", "");
    if password.is_empty() {
        return failed(400, "missing password");
    }
    state.server_auth = password.to_owned();
    Reply::json(200, ok_json(true))
}

/// Changes the server password to the one that a request names.
pub fn set_server_auth_handler(state: &mut SharedState, headers: &HeaderMap, body: &Json) -> (r: Reply)
    ensures
        exists|now: u128| #[trigger]
            set_auth_step(
                old(state)@,
                cookie_login(header(*headers, "cookie"@)),
                body@,
                now,
            ) == (final(state)@, r@),
{
    let now = state.now();
    let login = admin_cookie(headers);
    set_server_auth_at(state, as_opt(&login), body, now)
}

// ---- laws ----
/// Without a login in force nothing is told and nothing changes but that ended logins are
/// forgotten.
pub proof fn admin_needs_login(
    v: RelayView,
    login: Option<Seq<char>>,
    body: JsonView,
    now: u128,
    version: Seq<char>,
    ids: Seq<Seq<char>>,
    fresh: Seq<Seq<char>>,
    on: bool,
)
    requires
        !admin_check(v, login, now).1,
    ensures
        ({
            let refused = (admin_check(v, login, now).0, unauthorized_reply());
            &&& overview_step(v, login, version, ids, now) == refused
            &&& kick_step(v, login, body, now) == refused
            &&& revoke_step(v, login, body, now) == refused
            &&& regenerate_step(v, login, body, now, fresh) == refused
            &&& permission_step(v, login, body, now) == refused
            &&& tag_step(v, login, body, now, on) == refused
            &&& get_auth_step(v, login, now) == refused
            &&& set_auth_step(v, login, body, now) == refused
            &&& refused.0 == (RelayView { admin_sessions: refused.0.admin_sessions, ..v })
        }),
{
}

/// A login with the administrator's name and password is in force for twelve hours, and no longer.
pub proof fn login_lasts_twelve_hours(
    v: RelayView,
    body: JsonView,
    now: u128,
    token: Seq<char>,
    later: u128,
)
    requires
        now <= MAX_NANOS,
        body.str_or("user"@, ""@) == v.admin_user,
        body.str_or("pass"@, ""@) == v.admin_pass,
    ensures
        login(v, body, now, token).1.status == 200,
        admin_check(login(v, body, now, token).0, Some(token), later).1 == (later < now + 12 * 3600
            * NANOS_PER_SEC),
{
}

/// A login with another name or password is refused, and nothing changes.
pub proof fn wrong_password_is_refused(v: RelayView, body: JsonView, now: u128, token: Seq<char>)
    requires
        body.str_or("user"@, ""@) != v.admin_user || body.str_or("pass"@, ""@) != v.admin_pass,
    ensures
        login(v, body, now, token) == (v, failed_reply(401, "invalid credentials"@)),
{
}

/// A login that was ended is not in force.
pub proof fn logout_ends_login(v: RelayView, token: Seq<char>, later: u128)
    ensures
        !admin_check(logout(v, Some(token)).0, Some(token), later).1,
{
}

/// A session that was cut off is gone: it is not registered, its agent and its browsers are
/// unreachable, no token opens it, and its recording ends.
pub proof fn kicked_session_is_gone(v: RelayView, sid: Seq<char>, t: Seq<char>, stream: Seq<char>)
    requires
        v.registry.valid(),
    ensures
        ({
            let w = kicked(v, sid);
            &&& !w.registry.sessions.contains_key(sid)
            &&& !w.registry.opens(t, sid)
            &&& !w.channels.contains_key(sid)
            &&& v.channels.contains_key(sid) && is_stream_of(v.channels[sid].browsers, stream)
                ==> !w.streams.contains_key(stream)
            &&& !is_recorded(w, sid)
            &&& v.registry.sessions.contains_key(sid) && lists(v.registry.sessions[sid].tokens, t)
                ==> w.registry.authenticate(t) is None
        }),
{
    removed_session_is_closed(v.registry, sid, t);
}

/// A changed server password takes effect at once: agents and AI agents must use the new one.
pub proof fn new_password_takes_effect(
    v: RelayView,
    login: Option<Seq<char>>,
    body: JsonView,
    now: u128,
)
    requires
        admin_check(v, login, now).1,
        body.str_or("password"@, ""@).len() > 0,
    ensures
        set_auth_step(v, login, body, now).0.server_auth == body.str_or("password"@, ""@),
        set_auth_step(v, login, body, now).1 == json_reply(200, ok_doc(true)),
        get_auth_step(set_auth_step(v, login, body, now).0, login, now).1 == json_reply(
            200,
            JsonView::object().with_str("server_auth"@, body.str_or("password"@, ""@)),
        ),
{
}

} // verus!
