//! What an administrator may do, sees and changes.
use vstd::prelude::*;

use crate::json::JsonView;
use crate::laws::browsers::refusal;
use crate::laws::files::{split_keeps_a_piece, split_splits_both_sides};
use crate::laws::texts::trimming_takes_the_space;
use crate::proto::Permission;
use crate::relay::admin::{
    admin_check, cookie_login, first_cookie, get_auth_step, kick_step, login, logout,
    overview_step, perm_named, permission_step, regenerate_step, revoke_step, session_doc,
    set_auth_step, tag_step,
};
use crate::relay::state::{BodyView, RelayView, ReplyView};
use crate::text::{is_space, split_on, trimmed};

verus! {

/// Whether a login is in force at a time: it was made, and its end has not come.
pub open spec fn in_force(v: RelayView, t: Seq<char>, now: u128) -> bool {
    v.admin_sessions.contains_key(t) && v.admin_sessions[t] > now
}

/// A request is an administrator's exactly where it carries a login that is in force. Asking
/// forgets logins that have ended, and no other; nothing else changes.
pub proof fn login_is_checked(v: RelayView, t: Seq<char>, now: u128, other: Seq<char>)
    ensures
        admin_check(v, Some(t), now).1 == in_force(v, t, now),
        admin_check(v, None, now) == (v, false),
        ({
            let w = admin_check(v, Some(t), now).0;
            &&& w.admin_sessions.contains_key(other) == in_force(v, other, now)
            &&& in_force(v, other, now) ==> w.admin_sessions[other] == v.admin_sessions[other]
            &&& w == RelayView { admin_sessions: w.admin_sessions, ..v }
        }),
{
}

/// Whether a reply is a document with this status.
pub open spec fn replies(r: ReplyView, status: u16, doc: JsonView) -> bool {
    r.status == status && r.body == BodyView::Json(doc)
}

/// That it worked, or not.
pub open spec fn ok(b: bool) -> JsonView {
    JsonView::Obj(Map::<Seq<char>, JsonView>::empty().insert("ok"@, JsonView::Bool(b)))
}

/// That it did not work, and why.
pub open spec fn not_ok(why: Seq<char>) -> JsonView {
    JsonView::Obj(
        Map::<Seq<char>, JsonView>::empty().insert("ok"@, JsonView::Bool(false)).insert(
            "error"@,
            JsonView::Str(why),
        ),
    )
}

/// The administrator's name and password, and nothing else, make a login. Its cookie carries the
/// drawn token, is kept from scripts and from other sites, and lasts twelve hours, as the login
/// does.
pub proof fn login_needs_name_and_password(
    v: RelayView,
    body: JsonView,
    now: u128,
    token: Seq<char>,
    user: Seq<char>,
    pass: Seq<char>,
)
    requires
        body.str_field("user"@) == Some(user),
        body.str_field("pass"@) == Some(pass),
        now + 43_200_000_000_000 <= u128::MAX,
    ensures
        ({
            let (w, r) = login(v, body, now, token);
            &&& user == v.admin_user && pass == v.admin_pass ==> {
                &&& w.admin_sessions == v.admin_sessions.insert(
                    token,
                    (now + 43_200_000_000_000) as u128,
                )
                &&& w == RelayView { admin_sessions: w.admin_sessions, ..v }
                &&& replies(r, 200, ok(true))
                &&& r.set_cookie == Some(
                    "sr_admin="@ + token
                        + "; Path=/; HttpOnly; SameSite=Strict; Max-Age=43200"@,
                )
            }
            &&& user != v.admin_user || pass != v.admin_pass ==> {
                &&& w == v
                &&& replies(r, 401, not_ok("invalid credentials"@))
                &&& r.set_cookie is None
            }
        }),
{
    reveal_with_fuel(crate::text::decimal, 6);
    reveal_strlit("; Path=/; HttpOnly; SameSite=Strict; Max-Age=43200");
    reveal_strlit("; Path=/; HttpOnly; SameSite=Strict; Max-Age=");
    let d = crate::text::decimal(43200);
    assert(d =~= seq!['4', '3', '2', '0', '0']);
    assert("; Path=/; HttpOnly; SameSite=Strict; Max-Age=43200"@
        =~= "; Path=/; HttpOnly; SameSite=Strict; Max-Age="@ + d);
    assert("sr_admin="@ + token + "; Path=/; HttpOnly; SameSite=Strict; Max-Age="@ + d
        =~= "sr_admin="@ + token + ("; Path=/; HttpOnly; SameSite=Strict; Max-Age="@ + d));
}

/// A login without a name or a password is that of an empty one.
pub proof fn missing_credentials_are_empty(
    v: RelayView,
    body: JsonView,
    now: u128,
    token: Seq<char>,
)
    requires
        v.admin_user.len() > 0 && body.str_field("user"@) is None || v.admin_pass.len() > 0
            && body.str_field("pass"@) is None,
    ensures
        login(v, body, now, token).0 == v,
        replies(login(v, body, now, token).1, 401, not_ok("invalid credentials"@)),
{
    reveal_strlit("");
}

/// A login that is ended is forgotten, and the cookie with it; other logins stay.
pub proof fn logout_forgets_the_login(v: RelayView, t: Seq<char>)
    ensures
        ({
            let (w, r) = logout(v, Some(t));
            &&& w.admin_sessions == v.admin_sessions.remove(t)
            &&& w == RelayView { admin_sessions: w.admin_sessions, ..v }
            &&& replies(r, 200, ok(true))
            &&& r.set_cookie == Some("sr_admin=; Path=/; HttpOnly; SameSite=Strict; Max-Age=0"@)
        }),
        logout(v, None).0 == v,
        replies(logout(v, None).1, 200, ok(true)),
{
}

/// The login that a login's cookie carries is read back, alone or after another cookie.
pub proof fn cookie_is_read_back(t: Seq<char>, pre: Seq<char>)
    requires
        t.len() > 0,
        !t.contains(';'),
        !is_space(t.last()),
        !pre.contains(';'),
        !("sr_admin="@.is_prefix_of(trimmed(pre))),
    ensures
        cookie_login(Some("sr_admin="@ + t)) == Some(t),
        cookie_login(Some(pre + "; sr_admin="@ + t)) == Some(t),
        cookie_login(Some(pre)) is None,
        cookie_login(None) is None,
{
    reveal_strlit("sr_admin=");
    reveal_strlit("; sr_admin=");
    let name = "sr_admin="@;
    let whole = name + t;
    assert(!whole.contains(';')) by {
        if whole.contains(';') {
            let i = choose|i: int| 0 <= i < whole.len() && whole[i] == ';';
            if i >= name.len() {
                assert(t[i - name.len()] == ';');
                assert(t.contains(';'));
            }
        }
    }
    let none = Seq::<char>::empty();
    split_keeps_a_piece(whole, ';');
    assert(whole.last() == t.last());
    trimming_takes_the_space(none, whole, none);
    assert(none + whole + none =~= whole);
    assert(whole.skip(name.len() as int) =~= t);
    assert(name.is_prefix_of(whole)) by {
        assert(whole.take(name.len() as int) =~= name);
    }
    assert(first_cookie(seq![whole]) == Some(t)) by {
        assert(seq![whole][0] == whole);
    }
    // after another cookie
    let spaced = seq![' '] + whole;
    let all = pre + "; sr_admin="@ + t;
    assert(all =~= pre + seq![';'] + spaced);
    split_splits_both_sides(pre, ';', spaced);
    split_keeps_a_piece(pre, ';');
    assert(!spaced.contains(';')) by {
        if spaced.contains(';') {
            let i = choose|i: int| 0 <= i < spaced.len() && spaced[i] == ';';
            if i > 0 {
                assert(whole[i - 1] == ';');
                assert(whole.contains(';'));
            }
        }
    }
    split_keeps_a_piece(spaced, ';');
    trimming_takes_the_space(seq![' '], whole, none);
    assert(seq![' '] + whole + none =~= spaced);
    let pieces = seq![pre] + seq![spaced];
    assert(split_on(all, ';') == pieces);
    assert(pieces[0] == pre);
    assert(pieces.skip(1) =~= seq![spaced]);
    assert(seq![spaced][0] == spaced);
    assert(first_cookie(seq![spaced]) == Some(t));
    assert(seq![pre][0] == pre);
    assert(seq![pre].skip(1) =~= Seq::<Seq<char>>::empty());
    assert(first_cookie(Seq::<Seq<char>>::empty()) is None);
}

/// Without a login in force every request is refused in the same way, and nothing is told or
/// changed.
pub proof fn strangers_are_refused(
    v: RelayView,
    t: Seq<char>,
    body: JsonView,
    now: u128,
    version: Seq<char>,
    ids: Seq<Seq<char>>,
    fresh: Seq<Seq<char>>,
    on: bool,
)
    requires
        !in_force(v, t, now),
    ensures
        ({
            let no = refusal(401, "unauthorized"@);
            &&& overview_step(v, Some(t), version, ids, now).1 == no
            &&& kick_step(v, Some(t), body, now).1 == no
            &&& revoke_step(v, Some(t), body, now).1 == no
            &&& regenerate_step(v, Some(t), body, now, fresh).1 == no
            &&& permission_step(v, Some(t), body, now).1 == no
            &&& tag_step(v, Some(t), body, now, on).1 == no
            &&& get_auth_step(v, Some(t), now).1 == no
            &&& set_auth_step(v, Some(t), body, now).1 == no
            &&& kick_step(v, Some(t), body, now).0.registry == v.registry
            &&& kick_step(v, Some(t), body, now).0.channels == v.channels
            &&& revoke_step(v, Some(t), body, now).0.registry == v.registry
            &&& regenerate_step(v, Some(t), body, now, fresh).0.registry == v.registry
            &&& permission_step(v, Some(t), body, now).0.registry == v.registry
            &&& tag_step(v, Some(t), body, now, on).0.registry == v.registry
            &&& set_auth_step(v, Some(t), body, now).0.server_auth == v.server_auth
        }),
{
}

/// An administrator cuts off the session that the request names: it is gone from the sessions, the
/// channels, the events and the recordings, and so are the streams of its browsers. Other sessions
/// keep their channels, and other streams stay.
pub proof fn administrator_cuts_off(
    v: RelayView,
    t: Seq<char>,
    body: JsonView,
    now: u128,
    sid: Seq<char>,
    other: Seq<char>,
    stream: Seq<char>,
)
    requires
        in_force(v, t, now),
        body.str_field("session_id"@) == Some(sid),
        sid.len() > 0,
        other != sid,
    ensures
        ({
            let (w, r) = kick_step(v, Some(t), body, now);
            &&& replies(r, 200, ok(true))
            &&& !w.channels.contains_key(sid) && !w.buffers.contains_key(sid)
                && !w.last_activity.contains_key(sid)
            &&& !w.registry.sessions.contains_key(sid)
            &&& v.recorder matches Some(before) ==> w.recorder is Some && !(w.recorder->0).open.contains(sid)
            &&& w.channels.contains_key(other) == v.channels.contains_key(other)
            &&& v.channels.contains_key(other) ==> w.channels[other] == v.channels[other]
            &&& w.registry.sessions.contains_key(other) == v.registry.sessions.contains_key(other)
            &&& v.registry.sessions.contains_key(other) ==> w.registry.sessions[other]
                == v.registry.sessions[other]
            &&& v.channels.contains_key(sid) ==> {
                &&& (exists|i: int|
                    0 <= i < v.channels[sid].browsers.len() && (
                    #[trigger] v.channels[sid].browsers[i]).1 == stream)
                    ==> !w.streams.contains_key(stream)
                &&& v.streams.contains_key(stream) && !(exists|i: int|
                    0 <= i < v.channels[sid].browsers.len() && (
                    #[trigger] v.channels[sid].browsers[i]).1 == stream)
                    ==> w.streams.contains_key(stream) && w.streams[stream] == v.streams[stream]
            }
            &&& !v.channels.contains_key(sid) ==> w.streams == v.streams
        }),
{
}

/// An administrator changes what the request names: a token that is revoked, a token's permission,
/// the labels of a session, the server password. The reply says whether there was something to
/// change. A request that names nothing is refused.
pub proof fn administrator_changes(
    v: RelayView,
    t: Seq<char>,
    body: JsonView,
    now: u128,
    on: bool,
)
    requires
        in_force(v, t, now),
    ensures
        ({
            let (w, r) = revoke_step(v, Some(t), body, now);
            match body.str_field("token"@) {
                Some(token) => if token.len() > 0 {
                    &&& w.registry == v.registry.revoke_token(token)
                    &&& replies(r, 200, ok(v.registry.authenticate(token) is Some))
                } else {
                    w.registry == v.registry && replies(r, 400, not_ok("missing token"@))
                },
                None => w.registry == v.registry && replies(r, 400, not_ok("missing token"@)),
            }
        }),
        ({
            let (w, r) = permission_step(v, Some(t), body, now);
            match body.str_field("token"@) {
                Some(token) => if token.len() > 0 {
                    &&& replies(r, 200, ok(v.registry.authenticate(token) is Some))
                    &&& body.str_field("permission"@) == Some("ro"@) ==> w.registry
                        == v.registry.set_token_permission(token, Permission::ReadOnly)
                    &&& body.str_field("permission"@) == Some("rw"@) || body.str_field(
                        "permission"@,
                    ) is None ==> w.registry == v.registry.set_token_permission(
                        token,
                        Permission::ReadWrite,
                    )
                } else {
                    w.registry == v.registry && replies(r, 400, not_ok("missing token"@))
                },
                None => w.registry == v.registry && replies(r, 400, not_ok("missing token"@)),
            }
        }),
        ({
            let (w, r) = tag_step(v, Some(t), body, now, on);
            match (body.str_field("session_id"@), body.str_field("tag"@)) {
                (Some(sid), Some(tag)) => if sid.len() > 0 && trimmed(tag).len() > 0 {
                    &&& replies(r, 200, ok(v.registry.sessions.contains_key(sid)))
                    &&& on ==> w.registry == v.registry.add_tag(sid, tag).0
                    &&& !on ==> w.registry == v.registry.remove_tag(sid, tag).0
                } else {
                    w.registry == v.registry && replies(
                        r,
                        400,
                        not_ok("missing session_id or tag"@),
                    )
                },
                _ => w.registry == v.registry && replies(
                    r,
                    400,
                    not_ok("missing session_id or tag"@),
                ),
            }
        }),
        ({
            let (w, r) = set_auth_step(v, Some(t), body, now);
            match body.str_field("password"@) {
                Some(p) => if p.len() > 0 {
                    w.server_auth == p && replies(r, 200, ok(true))
                } else {
                    w.server_auth == v.server_auth && replies(r, 400, not_ok("missing password"@))
                },
                None => w.server_auth == v.server_auth && replies(
                    r,
                    400,
                    not_ok("missing password"@),
                ),
            }
        }),
        replies(
            get_auth_step(v, Some(t), now).1,
            200,
            JsonView::Obj(
                Map::<Seq<char>, JsonView>::empty().insert(
                    "server_auth"@,
                    JsonView::Str(v.server_auth),
                ),
            ),
        ),
{
    reveal_strlit("");
    reveal_strlit("ro");
    reveal_strlit("rw");
    assert("ro"@[1] != "rw"@[1]);
    perms_are_named("ro"@);
    perms_are_named("rw"@);
    assert(Seq::<char>::empty() =~= ""@);
    assert(trimmed(""@).len() == 0) by {
        trimming_takes_the_space(""@, ""@, ""@);
        assert(""@ + ""@ + ""@ =~= ""@);
    }
}

/// A session that an administrator gives fresh tokens is told with each of them and its permission;
/// one that is not there is not found.
pub proof fn administrator_renews(
    v: RelayView,
    t: Seq<char>,
    body: JsonView,
    now: u128,
    fresh: Seq<Seq<char>>,
    sid: Seq<char>,
)
    requires
        in_force(v, t, now),
        body.str_field("session_id"@) == Some(sid),
        sid.len() > 0,
    ensures
        ({
            let (w, r) = regenerate_step(v, Some(t), body, now, fresh);
            let (registry, given) = v.registry.regenerate_session(sid, fresh);
            &&& given matches Some(toks) ==> {
                &&& w.registry == registry
                &&& r.status == 200
                &&& r.body matches BodyView::Json(doc) && {
                    &&& doc.bool_field("ok"@) == Some(true)
                    &&& doc.get("tokens"@) matches Some(JsonView::Arr(items)) && items.len()
                        == toks.len() && forall|i: int|
                        0 <= i < items.len() ==> #[trigger] items[i] == token_entry(
                            toks[i].0,
                            toks[i].1,
                        )
                }
            }
            &&& given is None ==> w.registry == v.registry && replies(
                r,
                404,
                not_ok("session not found"@),
            )
        }),
{
    reveal_strlit("ok");
    reveal_strlit("tokens");
    assert("ok"@.len() != "tokens"@.len());
    reveal_strlit("token");
    reveal_strlit("permission");
    assert("token"@.len() != "permission"@.len());
}

/// A request that names no session cuts nothing off and renews nothing.
pub proof fn administrator_names_a_session(
    v: RelayView,
    t: Seq<char>,
    body: JsonView,
    now: u128,
    fresh: Seq<Seq<char>>,
)
    requires
        in_force(v, t, now),
        body.str_field("session_id"@) is None || body.str_field("session_id"@) == Some(
            Seq::<char>::empty(),
        ),
    ensures
        ({
            let (w, r) = kick_step(v, Some(t), body, now);
            &&& replies(r, 400, not_ok("missing session_id"@))
            &&& w.registry == v.registry && w.channels == v.channels && w.streams == v.streams
        }),
        ({
            let (w, r) = regenerate_step(v, Some(t), body, now, fresh);
            &&& replies(r, 400, not_ok("missing session_id"@))
            &&& w.registry == v.registry
        }),
{
    reveal_strlit("");
}

/// How a token is named in documents.
pub open spec fn token_entry(t: Seq<char>, p: Permission) -> JsonView {
    JsonView::Obj(
        Map::<Seq<char>, JsonView>::empty().insert("token"@, JsonView::Str(t)).insert(
            "permission"@,
            JsonView::Str(
                match p {
                    Permission::ReadWrite => "rw"@,
                    Permission::ReadOnly => "ro"@,
                },
            ),
        ),
    )
}

/// Read-only is asked for by its two letters in either case, and by nothing else.
pub proof fn perms_are_named(s: Seq<char>)
    ensures
        perm_named(s) == if s.len() == 2 && (s[0] == 'r' || s[0] == 'R') && (s[1] == 'o' || s[1]
            == 'O') {
            Permission::ReadOnly
        } else {
            Permission::ReadWrite
        },
{
    reveal_strlit("ro");
    let ro = "ro"@;
    assert(crate::text::ascii_lower('r') == 'r' && crate::text::ascii_lower('o') == 'o');
    assert(crate::text::ascii_lower('R') == 'r' && crate::text::ascii_lower('O') == 'o');
    if s.len() == 2 {
        assert(crate::text::ascii_lower(s[0]) == 'r' <==> s[0] == 'r' || s[0] == 'R');
        assert(crate::text::ascii_lower(s[1]) == 'o' <==> s[1] == 'o' || s[1] == 'O');
        if crate::text::same_ignoring_case(s, ro) {
            assert(crate::text::ascii_lower(s[0]) == crate::text::ascii_lower(ro[0]));
            assert(crate::text::ascii_lower(s[1]) == crate::text::ascii_lower(ro[1]));
        }
    }
}

/// An administrator sees of a session whether its agent is connected, whether it is temporary, its
/// key, how many browsers it has, its tokens with their permissions, its labels and whether it is
/// recorded.
pub proof fn session_is_shown(v: RelayView, sid: Seq<char>)
    ensures
        ({
            let d = session_doc(v, sid);
            let s = v.registry.sessions[sid];
            &&& d.str_field("session_id"@) == Some(sid)
            &&& d.bool_field("online"@) == Some(
                v.channels.contains_key(sid) && v.channels[sid].agent is Some,
            )
            &&& d.bool_field("is_temporary"@) == Some(s.is_temporary)
            &&& s.fixed_key matches Some(k) ==> d.str_field("fixed_key"@) == Some(k)
            &&& s.fixed_key is None ==> d.get("fixed_key"@) == Some(JsonView::Null)
            &&& d.get("browser_count"@) == Some(
                JsonView::Int(
                    if v.channels.contains_key(sid) {
                        v.channels[sid].browsers.len() as int
                    } else {
                        0
                    },
                ),
            )
            &&& d.get("tokens"@) matches Some(JsonView::Arr(items)) && items.len()
                == s.tokens.len() && forall|i: int|
                0 <= i < items.len() ==> #[trigger] items[i] == token_entry(
                    s.tokens[i].0,
                    s.tokens[i].1,
                )
            &&& d.get("tags"@) matches Some(JsonView::Arr(tags)) && tags.len() == s.tags.len()
                && forall|i: int|
                0 <= i < tags.len() ==> #[trigger] tags[i] == JsonView::Str(s.tags[i])
            &&& d.bool_field("recording"@) == Some(
                v.recorder is Some && (v.recorder->0).open.contains(sid),
            )
        }),
{
    reveal_strlit("session_id");
    reveal_strlit("online");
    reveal_strlit("is_temporary");
    reveal_strlit("fixed_key");
    reveal_strlit("browser_count");
    reveal_strlit("tokens");
    reveal_strlit("tags");
    reveal_strlit("recording");
    assert("session_id"@.len() != "online"@.len());
    assert("session_id"@.len() != "is_temporary"@.len());
    assert("session_id"@.len() != "fixed_key"@.len());
    assert("session_id"@.len() != "browser_count"@.len());
    assert("session_id"@.len() != "tokens"@.len());
    assert("session_id"@.len() != "tags"@.len());
    assert("session_id"@.len() != "recording"@.len());
    assert("online"@.len() != "is_temporary"@.len());
    assert("online"@.len() != "fixed_key"@.len());
    assert("online"@.len() != "browser_count"@.len());
    assert("online"@[0] != "tokens"@[0]);
    assert("online"@.len() != "tags"@.len());
    assert("online"@.len() != "recording"@.len());
    assert("is_temporary"@.len() != "fixed_key"@.len());
    assert("is_temporary"@.len() != "browser_count"@.len());
    assert("is_temporary"@.len() != "tokens"@.len());
    assert("is_temporary"@.len() != "tags"@.len());
    assert("is_temporary"@.len() != "recording"@.len());
    assert("fixed_key"@.len() != "browser_count"@.len());
    assert("fixed_key"@.len() != "tokens"@.len());
    assert("fixed_key"@.len() != "tags"@.len());
    assert("fixed_key"@[0] != "recording"@[0]);
    assert("browser_count"@.len() != "tokens"@.len());
    assert("browser_count"@.len() != "tags"@.len());
    assert("browser_count"@.len() != "recording"@.len());
    assert("tokens"@.len() != "tags"@.len());
    assert("tokens"@.len() != "recording"@.len());
    assert("tags"@.len() != "recording"@.len());
    reveal_strlit("token");
    reveal_strlit("permission");
    assert("token"@.len() != "permission"@.len());
}

/// An administrator sees the version, how long the relay has run, how many agents there are and how
/// many of them are connected, how many browsers there are, and each session.
pub proof fn overview_shows_the_relay(
    v: RelayView,
    t: Seq<char>,
    version: Seq<char>,
    ids: Seq<Seq<char>>,
    now: u128,
)
    requires
        in_force(v, t, now),
        crate::relay::admin::browser_total(v, ids) <= usize::MAX,
    ensures
        ({
            let r = overview_step(v, Some(t), version, ids, now).1;
            &&& r.status == 200
            &&& r.body matches BodyView::Json(d) && {
                &&& d.str_field("version"@) == Some(version)
                &&& d.get("uptime_seconds"@) == Some(JsonView::Int(now as int / 1_000_000_000))
                &&& d.get("agent_count"@) == Some(JsonView::Int(ids.len() as int))
                &&& d.get("agent_online"@) == Some(
                    JsonView::Int(ids.filter(|sid: Seq<char>| v.online(sid)).len() as int),
                )
                &&& d.get("sessions"@) matches Some(JsonView::Arr(items)) && items.len()
                    == ids.len() && forall|i: int|
                    0 <= i < ids.len() ==> #[trigger] items[i] == session_doc(v, ids[i])
                &&& d.get("browser_count"@) matches Some(JsonView::Int(n)) && n
                    == crate::relay::admin::browser_total(v, ids)
            }
        }),
{
    reveal_strlit("version");
    reveal_strlit("uptime_seconds");
    reveal_strlit("agent_count");
    reveal_strlit("agent_online");
    reveal_strlit("browser_count");
    reveal_strlit("sessions");
    assert("version"@.len() != "uptime_seconds"@.len());
    assert("version"@.len() != "agent_count"@.len());
    assert("version"@.len() != "agent_online"@.len());
    assert("version"@.len() != "browser_count"@.len());
    assert("version"@.len() != "sessions"@.len());
    assert("uptime_seconds"@.len() != "agent_count"@.len());
    assert("uptime_seconds"@.len() != "agent_online"@.len());
    assert("uptime_seconds"@.len() != "browser_count"@.len());
    assert("uptime_seconds"@.len() != "sessions"@.len());
    assert("agent_count"@.len() != "agent_online"@.len());
    assert("agent_count"@.len() != "browser_count"@.len());
    assert("agent_count"@.len() != "sessions"@.len());
    assert("agent_online"@.len() != "browser_count"@.len());
    assert("agent_online"@.len() != "sessions"@.len());
    assert("browser_count"@.len() != "sessions"@.len());
    let w = admin_check(v, Some(t), now).0;
    assert forall|sid: Seq<char>| #[trigger] session_doc(w, sid) == session_doc(v, sid) by {}
    lemma_same_counts(v, w, ids);
    lemma_online(v, ids);
}

proof fn lemma_same_counts(v: RelayView, w: RelayView, ids: Seq<Seq<char>>)
    requires
        w.channels == v.channels,
    ensures
        crate::relay::admin::online_count(w, ids) == crate::relay::admin::online_count(v, ids),
        crate::relay::admin::browser_total(w, ids) == crate::relay::admin::browser_total(v, ids),
    decreases ids.len(),
{
    if ids.len() > 0 {
        lemma_same_counts(v, w, ids.drop_last());
    }
}

proof fn lemma_online(v: RelayView, ids: Seq<Seq<char>>)
    ensures
        crate::relay::admin::online_count(v, ids) == ids.filter(
            |sid: Seq<char>| v.online(sid),
        ).len(),
    decreases ids.len(),
{
    reveal(Seq::filter);
    if ids.len() > 0 {
        lemma_online(v, ids.drop_last());
    }
}

/// The browsers of all sessions are counted together: those of each session on top of those before.
pub proof fn browsers_are_counted(v: RelayView, ids: Seq<Seq<char>>, sid: Seq<char>)
    ensures
        crate::relay::admin::browser_total(v, ids.push(sid)) == crate::relay::admin::browser_total(
            v,
            ids,
        ) + if v.channels.contains_key(sid) {
            v.channels[sid].browsers.len()
        } else {
            0
        },
        crate::relay::admin::browser_total(v, Seq::empty()) == 0,
{
    assert(ids.push(sid).drop_last() =~= ids);
}

} // verus!
