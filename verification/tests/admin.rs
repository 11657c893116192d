use axum::http::HeaderMap;
use shell_remote::json::Json;
use shell_remote::proto::Permission;
use shell_remote::relay::admin::{
    add_tag_handler, admin_cookie, admin_cookie_in, check_admin, check_admin_at,
    get_server_auth_handler, kick_handler, login_handler, login_with, logout_handler, overview_at,
    overview_handler, parse_perm, perm_str, permission_handler, regenerate_handler,
    remove_tag_handler, revoke_handler, set_server_auth_handler, ADMIN_SESSION_TTL,
};
use shell_remote::relay::recorder::{RecordEvent, Recorder};
use shell_remote::relay::state::{Body, Reply};
use shell_remote::relay::{ChannelMap, MessageQueue, SharedState};

fn state_with_admin(user: &str, pass: &str) -> SharedState {
    SharedState::new(
        "relay-pw".to_string(),
        100 * 1024 * 1024,
        Some("/admin-test".to_string()),
        user.to_string(),
        pass.to_string(),
        Some(Recorder::new("rec".to_string())),
    )
}

fn cookie_headers(token: &str) -> HeaderMap {
    let mut h = HeaderMap::new();
    h.insert("cookie", format!("sr_admin={}", token).parse().unwrap());
    h
}

fn log_in(state: &mut SharedState, token: &str) {
    let end = state.now() + ADMIN_SESSION_TTL as u128 * 1_000_000_000;
    state.admin_sessions.insert(token.to_string(), end);
}

fn body(r: &Reply) -> Json {
    match &r.body {
        Body::Json(j) => j.copy(),
        _ => panic!("no JSON body"),
    }
}

fn credentials(user: &str, pass: &str) -> Json {
    Json::object().with_str("user", user).with_str("pass", pass)
}

#[test]
fn test_login_success_sets_cookie() {
    let mut state = state_with_admin("admin", "s3cret");
    let resp = login_handler(&mut state, &credentials("admin", "s3cret"));
    assert_eq!(resp.status, 200);
    let set_cookie = resp.set_cookie.unwrap();
    assert!(set_cookie.contains("sr_admin="));
    assert!(set_cookie.contains("HttpOnly"));
    assert!(set_cookie.contains("SameSite=Strict"));
    assert!(set_cookie.ends_with("Max-Age=43200"));
}

#[test]
fn test_login_wrong_password() {
    let mut state = state_with_admin("admin", "s3cret");
    let resp = login_handler(&mut state, &credentials("admin", "wrong"));
    assert_eq!(resp.status, 401);
    assert_eq!(resp.set_cookie, None);
    assert_eq!(login_handler(&mut state, &credentials("root", "s3cret")).status, 401);
    assert_eq!(login_handler(&mut state, &Json::Null).status, 401);
    assert_eq!(state.admin_sessions.len(), 0);
}

#[test]
fn test_check_admin_rejects_without_cookie() {
    let mut state = state_with_admin("admin", "s3cret");
    assert!(!check_admin(&mut state, &HeaderMap::new()));
}

#[test]
fn test_check_admin_accepts_valid_session() {
    let mut state = state_with_admin("admin", "s3cret");
    log_in(&mut state, "tok123");
    assert!(check_admin(&mut state, &cookie_headers("tok123")));
}

#[test]
fn test_check_admin_rejects_expired() {
    let mut state = state_with_admin("admin", "s3cret");
    state.admin_sessions.insert("tok123".to_string(), 0);
    assert!(!check_admin(&mut state, &cookie_headers("tok123")));
    // It is forgotten on the way.
    assert_eq!(state.admin_sessions.len(), 0);
}

#[test]
fn test_overview_requires_auth() {
    let mut state = state_with_admin("admin", "s3cret");
    let resp = overview_handler(&mut state, &HeaderMap::new(), "0.0.0");
    assert_eq!(resp.status, 401);
    assert_eq!(body(&resp).str_field("error"), Some("unauthorized"));
}

#[test]
fn test_overview_returns_sessions() {
    let mut state = state_with_admin("admin", "s3cret");
    let (sid, _t) = state.sessions.register(None, "rw", None).unwrap();
    log_in(&mut state, "tok");
    let resp = overview_handler(&mut state, &cookie_headers("tok"), "0.0.0");
    assert_eq!(resp.status, 200);
    let v = body(&resp);
    assert_eq!(v.u64_field("agent_count"), Some(1));
    let sessions = v.at("sessions");
    let list = sessions.as_arr().unwrap();
    assert_eq!(list[0].str_field("session_id"), Some(sid.as_str()));
    let tokens = list[0].at("tokens");
    assert_eq!(tokens.as_arr().unwrap()[0].str_field("permission"), Some("rw"));
}

#[test]
fn the_overview_counts_agents_and_browsers() {
    let mut state = state_with_admin("admin", "s3cret");
    let (a, _t) = state.sessions.register(Some("k".to_string()), "rw", None).unwrap();
    let (_b, _t) = state.sessions.register(None, "both", None).unwrap();
    let mut cm = ChannelMap::new();
    cm.agent = Some(MessageQueue::new());
    cm.browser_sessions.insert("u1".to_string(), "s1".to_string());
    cm.browser_sessions.insert("u2".to_string(), "s2".to_string());
    state.agent_broadcast.insert(a.clone(), cm);
    state.sessions.add_tag(&a, "prod");
    state
        .recorder
        .as_mut()
        .unwrap()
        .record(&a, RecordEvent::Output("x".to_string()));
    state.admin_sessions.insert("t".to_string(), u128::MAX);
    let r = overview_at(&mut state, Some("t"), "1.2.3", 7_900_000_000);
    let v = body(&r);
    assert_eq!(v.str_field("version"), Some("1.2.3"));
    assert_eq!(v.u64_field("uptime_seconds"), Some(7));
    assert_eq!(v.u64_field("agent_count"), Some(2));
    assert_eq!(v.u64_field("agent_online"), Some(1));
    assert_eq!(v.u64_field("browser_count"), Some(2));
    let sessions = v.at("sessions");
    let list = sessions.as_arr().unwrap();
    assert_eq!(list[0].bool_field("online"), Some(true));
    assert_eq!(list[0].str_field("fixed_key"), Some("k"));
    assert_eq!(list[0].bool_field("is_temporary"), Some(false));
    assert_eq!(list[0].bool_field("recording"), Some(true));
    assert_eq!(list[0].at("tags"), Json::Arr(vec![Json::text("prod")]));
    assert_eq!(list[1].get("fixed_key"), Some(&Json::Null));
    assert_eq!(list[1].u64_field("browser_count"), Some(0));
}

#[test]
fn test_kick_removes_session() {
    let mut state = state_with_admin("admin", "s3cret");
    let (sid, tokens) = state.sessions.register(None, "rw", None).unwrap();
    let mut cm = ChannelMap::new();
    cm.agent = Some(MessageQueue::new());
    cm.browser_sessions.insert("u1".to_string(), "stream1".to_string());
    state.agent_broadcast.insert(sid.clone(), cm);
    state.sse_sessions.insert("stream1".to_string(), MessageQueue::new());
    state.sse_sessions.insert("other".to_string(), MessageQueue::new());
    state
        .recorder
        .as_mut()
        .unwrap()
        .record(&sid, RecordEvent::Output("x".to_string()));
    log_in(&mut state, "tok");
    let b = Json::object().with_str("session_id", &sid);
    let resp = kick_handler(&mut state, &cookie_headers("tok"), &b);
    assert_eq!(resp.status, 200);
    assert!(state.sessions.authenticate(&tokens[0].0).is_none());
    assert!(!state.agent_broadcast.contains_key(&sid));
    assert!(!state.sse_sessions.contains_key("stream1"));
    assert!(state.sse_sessions.contains_key("other"));
    assert!(!state.recorder.as_ref().unwrap().is_recording(&sid));
}

#[test]
fn test_revoke_and_regenerate_and_perm() {
    let mut state = state_with_admin("admin", "s3cret");
    let (sid, tokens) = state.sessions.register(None, "both", None).unwrap();
    log_in(&mut state, "tok");
    let h = cookie_headers("tok");

    let r = revoke_handler(&mut state, &h, &Json::object().with_str("token", &tokens[0].0));
    assert_eq!(r.status, 200);
    assert!(state.sessions.authenticate(&tokens[0].0).is_none());

    let r = regenerate_handler(&mut state, &h, &Json::object().with_str("session_id", &sid));
    assert_eq!(r.status, 200);
    let list = body(&r).at("tokens");
    let new_tok = list.as_arr().unwrap()[0].str_field("token").unwrap().to_string();
    assert!(state.sessions.authenticate(&new_tok).is_some());

    let r = permission_handler(
        &mut state,
        &h,
        &Json::object().with_str("token", &new_tok).with_str("permission", "ro"),
    );
    assert_eq!(r.status, 200);
    let (_, perm) = state.sessions.authenticate(&new_tok).unwrap();
    assert_eq!(perm, Permission::ReadOnly);
}

#[test]
fn test_server_auth_get_and_set() {
    let mut state = state_with_admin("admin", "s3cret");
    log_in(&mut state, "tok");
    let h = cookie_headers("tok");
    let r = get_server_auth_handler(&mut state, &h);
    assert_eq!(r.status, 200);
    assert_eq!(body(&r).str_field("server_auth"), Some("relay-pw"));
    let r = set_server_auth_handler(&mut state, &h, &Json::object().with_str("password", "new-pw"));
    assert_eq!(r.status, 200);
    assert_eq!(state.server_auth, "new-pw");
    let r = set_server_auth_handler(&mut state, &h, &Json::object());
    assert_eq!(r.status, 400);
    assert_eq!(state.server_auth, "new-pw");
}

#[test]
fn requests_that_name_nothing_are_refused() {
    let mut state = state_with_admin("admin", "s3cret");
    log_in(&mut state, "tok");
    let h = cookie_headers("tok");
    let none = Json::object();
    let r = kick_handler(&mut state, &h, &none);
    assert_eq!(r.status, 400);
    assert_eq!(body(&r).str_field("error"), Some("missing session_id"));
    let r = revoke_handler(&mut state, &h, &none);
    assert_eq!(body(&r).str_field("error"), Some("missing token"));
    let r = permission_handler(&mut state, &h, &none);
    assert_eq!(r.status, 400);
    let r = regenerate_handler(&mut state, &h, &none);
    assert_eq!(r.status, 400);
    let r = regenerate_handler(&mut state, &h, &Json::object().with_str("session_id", "nope"));
    assert_eq!(r.status, 404);
    assert_eq!(body(&r).str_field("error"), Some("session not found"));
    let blank = Json::object().with_str("session_id", "s").with_str("tag", "  ");
    assert_eq!(add_tag_handler(&mut state, &h, &blank).status, 400);
    assert_eq!(remove_tag_handler(&mut state, &h, &blank).status, 400);
    let r = revoke_handler(&mut state, &h, &Json::object().with_str("token", "nope"));
    assert_eq!(r.status, 200);
    assert_eq!(body(&r).bool_field("ok"), Some(false));
}

#[test]
fn sessions_are_tagged() {
    let mut state = state_with_admin("admin", "s3cret");
    let (sid, _t) = state.sessions.register(None, "rw", None).unwrap();
    log_in(&mut state, "tok");
    let h = cookie_headers("tok");
    let b = Json::object().with_str("session_id", &sid).with_str("tag", " db ");
    let r = add_tag_handler(&mut state, &h, &b);
    assert_eq!(body(&r).bool_field("ok"), Some(true));
    assert_eq!(state.sessions.list_sessions()[0].1.tags, vec!["db".to_string()]);
    let r = remove_tag_handler(&mut state, &h, &b);
    assert_eq!(body(&r).bool_field("ok"), Some(true));
    assert!(state.sessions.list_sessions()[0].1.tags.is_empty());
    let unknown = Json::object().with_str("session_id", "x").with_str("tag", "t");
    assert_eq!(body(&add_tag_handler(&mut state, &h, &unknown)).bool_field("ok"), Some(false));
}

#[test]
fn without_a_login_nothing_is_done() {
    let mut state = state_with_admin("admin", "s3cret");
    let (sid, tokens) = state.sessions.register(None, "rw", None).unwrap();
    let h = cookie_headers("forged");
    let b = Json::object().with_str("session_id", &sid).with_str("token", &tokens[0].0);
    assert_eq!(kick_handler(&mut state, &h, &b).status, 401);
    assert_eq!(revoke_handler(&mut state, &h, &b).status, 401);
    assert_eq!(regenerate_handler(&mut state, &h, &b).status, 401);
    assert_eq!(permission_handler(&mut state, &h, &b).status, 401);
    assert_eq!(add_tag_handler(&mut state, &h, &b).status, 401);
    assert_eq!(remove_tag_handler(&mut state, &h, &b).status, 401);
    assert_eq!(get_server_auth_handler(&mut state, &h).status, 401);
    assert_eq!(set_server_auth_handler(&mut state, &h, &b).status, 401);
    assert_eq!(state.sessions.authenticate(&tokens[0].0).unwrap().0, sid);
}

#[test]
fn a_login_lasts_twelve_hours_and_can_be_ended() {
    let sec = 1_000_000_000u128;
    let mut state = state_with_admin("admin", "s3cret");
    let r = login_with(&mut state, &credentials("admin", "s3cret"), 5, "t1".to_string());
    assert_eq!(
        r.set_cookie,
        Some("sr_admin=t1; Path=/; HttpOnly; SameSite=Strict; Max-Age=43200".to_string())
    );
    assert!(check_admin_at(&mut state, Some("t1"), 43200 * sec + 4));
    assert!(!check_admin_at(&mut state, Some("t2"), 0));
    assert!(!check_admin_at(&mut state, Some("t1"), 43200 * sec + 5));

    log_in(&mut state, "t3");
    let r = logout_handler(&mut state, &cookie_headers("t3"));
    assert_eq!(r.status, 200);
    assert_eq!(
        r.set_cookie,
        Some("sr_admin=; Path=/; HttpOnly; SameSite=Strict; Max-Age=0".to_string())
    );
    assert!(!check_admin(&mut state, &cookie_headers("t3")));
}

#[test]
fn the_cookie_is_found_among_others() {
    assert_eq!(admin_cookie_in("a=1; sr_admin=xyz; b=2"), Some("xyz".to_string()));
    assert_eq!(admin_cookie_in("xsr_admin=1"), None);
    assert_eq!(admin_cookie_in("sr_admin="), Some(String::new()));
    assert_eq!(admin_cookie(&HeaderMap::new()), None);
    assert_eq!(admin_cookie(&cookie_headers("q")), Some("q".to_string()));
}

#[test]
fn permissions_have_names() {
    assert_eq!(perm_str(&Permission::ReadWrite), "rw");
    assert_eq!(perm_str(&Permission::ReadOnly), "ro");
    assert_eq!(parse_perm("RO"), Permission::ReadOnly);
    assert_eq!(parse_perm("ro"), Permission::ReadOnly);
    assert_eq!(parse_perm("rw"), Permission::ReadWrite);
    assert_eq!(parse_perm("r"), Permission::ReadWrite);
}
