use axum::http::HeaderMap;
use shell_remote::agent::fs::encode_b64;
use shell_remote::agent::session::{make_output_message, AgentAction, AgentSession};
use shell_remote::json::Json;
use shell_remote::proto::{Message, Permission};
use shell_remote::relay::recorder::{RecordEvent, RecordStep, Recorder};
use shell_remote::relay::state::{Body, Offer, Reply};
use shell_remote::relay::ws::{
    agent_events_handler, agent_events_with, agent_send_handler, browser_left, browser_send_handler,
    browser_sse_handler, browser_sse_with, route_agent_message, AgentStream, BrowserConnect,
};
use shell_remote::relay::{
    ChannelMap, MessageQueue, SharedState, MAX_SESSIONS, SSE_CHANNEL_CAPACITY,
};
use shell_remote::strmap::StrMap;

fn make_state(server_auth: &str) -> SharedState {
    SharedState::new(
        server_auth.to_string(),
        100 * 1024 * 1024,
        None,
        String::new(),
        String::new(),
        None,
    )
}

fn make_state_with_recorder() -> SharedState {
    SharedState::new(
        String::new(),
        100 * 1024 * 1024,
        None,
        String::new(),
        String::new(),
        Some(Recorder::new("/tmp/rec".to_string())),
    )
}

fn insert_channel_map(state: &mut SharedState, session_id: &str) {
    let mut cm = ChannelMap::new();
    cm.agent = Some(MessageQueue::new());
    state.agent_broadcast.insert(session_id.to_string(), cm);
}

fn add_browser(state: &mut SharedState, session_id: &str, user_id: &str) -> String {
    let stream = format!("bs_test_{}", user_id);
    state.sse_sessions.insert(stream.clone(), MessageQueue::new());
    let mut cm = state.agent_broadcast.remove(session_id).unwrap();
    cm.browser_sessions.insert(user_id.to_string(), stream.clone());
    state.agent_broadcast.insert(session_id.to_string(), cm);
    stream
}

fn take(state: &mut SharedState, stream: &str) -> Option<Json> {
    let mut q = state.sse_sessions.remove(stream)?;
    let m = q.pop();
    state.sse_sessions.insert(stream.to_string(), q);
    m
}

fn take_for_agent(state: &mut SharedState, sid: &str) -> Option<Json> {
    let mut cm = state.agent_broadcast.remove(sid)?;
    let m = cm.agent.as_mut().and_then(|q| q.pop());
    state.agent_broadcast.insert(sid.to_string(), cm);
    m
}

fn doc(t: &str, sid: &str, payload: Json) -> Json {
    Json::object()
        .with_str("type", t)
        .with_str("session_id", sid)
        .with("payload", payload)
}

fn params(pairs: &[(&str, &str)]) -> StrMap<String> {
    let mut m: StrMap<String> = StrMap::new();
    for (k, v) in pairs {
        m.insert(k.to_string(), v.to_string());
    }
    m
}

fn body(r: &Reply) -> Json {
    match &r.body {
        Body::Json(j) => j.copy(),
        _ => panic!("no JSON body"),
    }
}

fn text(r: &Reply) -> String {
    match &r.body {
        Body::Text(s) => s.clone(),
        _ => panic!("no text body"),
    }
}

#[test]
fn test_route_agent_message_broadcasts_to_all_browsers() {
    let mut state = make_state("");
    insert_channel_map(&mut state, "sid1");
    let s1 = add_browser(&mut state, "sid1", "user1");
    let s2 = add_browser(&mut state, "sid1", "user2");
    let msg = doc("terminal:output", "sid1", Json::object().with_str("data", "hello"));
    route_agent_message(&mut state, "sid1", &msg);
    assert_eq!(take(&mut state, &s1), Some(msg.copy()));
    assert_eq!(take(&mut state, &s2), Some(msg));
}

#[test]
fn test_route_agent_message_target_user_only() {
    let mut state = make_state("");
    insert_channel_map(&mut state, "sid1");
    let s1 = add_browser(&mut state, "sid1", "user1");
    let s2 = add_browser(&mut state, "sid1", "user2");
    let msg = doc(
        "terminal:output",
        "sid1",
        Json::object().with_str("data", "hello").with_str("_target_user_id", "user1"),
    );
    route_agent_message(&mut state, "sid1", &msg);
    assert!(take(&mut state, &s1).is_some());
    assert!(take(&mut state, &s2).is_none());
}

#[test]
fn test_route_agent_message_missing_session_no_panic() {
    let mut state = make_state("");
    let msg = doc("terminal:output", "nonexistent", Json::object());
    assert!(route_agent_message(&mut state, "nonexistent", &msg).is_none());
}

#[test]
fn test_route_agent_message_mcp_result_oneshot() {
    let mut state = make_state("");
    insert_channel_map(&mut state, "sid1");
    state.pending_mcp.insert("req1".to_string(), "sid1".to_string());
    let msg = doc(
        "mcp:result",
        "sid1",
        Json::object()
            .with_str("stdout", "hello")
            .with_str("stderr", "")
            .with("exit_code", Json::Int(0))
            .with_str("_mcp_request_id", "req1"),
    );
    let answer = route_agent_message(&mut state, "sid1", &msg).unwrap();
    assert_eq!(answer.request_id, "req1");
    assert_eq!(answer.result.str_field("stdout").unwrap(), "hello");
    assert_eq!(answer.result.i64_field("exit_code"), Some(0));
    // It waits no more.
    assert!(route_agent_message(&mut state, "sid1", &msg).is_none());
}

#[test]
fn test_route_agent_message_fs_result_oneshot() {
    let mut state = make_state("");
    insert_channel_map(&mut state, "sid1");
    let s1 = add_browser(&mut state, "sid1", "u");
    state.pending_mcp.insert("fs1".to_string(), "sid1".to_string());
    let msg = doc(
        "fs:result",
        "sid1",
        Json::object()
            .with("success", Json::Bool(true))
            .with_str("error", "")
            .with_str("content", "ok")
            .with_str("path", "/tmp/x")
            .with_str("_mcp_request_id", "fs1"),
    );
    let answer = route_agent_message(&mut state, "sid1", &msg).unwrap();
    assert_eq!(answer.result.bool_field("success"), Some(true));
    assert_eq!(answer.result.str_field("content"), Some("ok"));
    assert_eq!(answer.result.str_field("new_path"), Some(""));
    assert_eq!(answer.result.get("entries"), Some(&Json::Null));
    // What answers a request does not go to browsers.
    assert!(take(&mut state, &s1).is_none());
}

#[test]
fn test_route_agent_message_invalid_json_no_panic() {
    let mut state = make_state("");
    assert!(route_agent_message(&mut state, "sid1", &Json::text("not valid json {{{")).is_none());
}

#[test]
fn an_exec_result_is_answered_whole() {
    let mut state = make_state("");
    insert_channel_map(&mut state, "sid1");
    let s1 = add_browser(&mut state, "sid1", "u");
    state.pending_mcp.insert("r".to_string(), "sid1".to_string());
    let payload = Json::object().with_str("exec_id", "e1").with_str("_mcp_request_id", "r");
    let msg = doc("mcp:exec_result", "sid1", payload.copy());
    let answer = route_agent_message(&mut state, "sid1", &msg).unwrap();
    assert_eq!(answer.result, payload);
    assert!(take(&mut state, &s1).is_none());
}

#[test]
fn test_agent_send_register_creates_session() {
    let mut state = make_state("");
    let b = Json::object().with_str("type", "agent:register").with_str("token_type", "rw");
    let (r, _) = agent_send_handler(&mut state, &HeaderMap::new(), &b);
    assert_eq!(r.status, 200);
}

#[test]
fn test_agent_send_register_reuses_cached_tokens() {
    let mut state = make_state("");
    let tok = |t: &str, p: &str| Json::object().with_str("token", t).with_str("permission", p);
    let b = Json::object().with_str("type", "agent:register").with(
        "tokens",
        Json::Arr(vec![tok("reused-rw", "rw"), tok("reused-ro", "ro")]),
    );
    let (r, _) = agent_send_handler(&mut state, &HeaderMap::new(), &b);
    assert_eq!(r.status, 200);
    let v = body(&r);
    let payload = v.at("payload");
    let list = payload.at("tokens");
    let tokens = list.as_arr().unwrap();
    assert_eq!(tokens.len(), 2);
    assert_eq!(tokens[0].str_field("token"), Some("reused-rw"));
    assert_eq!(tokens[1].str_field("token"), Some("reused-ro"));
    let sid = v.str_field("session_id").unwrap();
    let (auth_sid, _) = state.sessions.authenticate("reused-rw").unwrap();
    assert_eq!(auth_sid, sid);
}

#[test]
fn test_agent_send_no_session_id_returns_400() {
    let mut state = make_state("");
    let b = Json::object()
        .with_str("type", "terminal:output")
        .with("payload", Json::object().with_str("data", "x"));
    let (r, _) = agent_send_handler(&mut state, &HeaderMap::new(), &b);
    assert_eq!(r.status, 400);
    assert_eq!(text(&r), "Missing session_id");
}

#[test]
fn test_agent_events_missing_session_returns_400() {
    let mut state = make_state("");
    match agent_events_handler(&mut state, &HeaderMap::new(), &params(&[])) {
        AgentStream::Refused(r) => assert_eq!(r.status, 400),
        AgentStream::Open { .. } => panic!("connected"),
    }
}

#[test]
fn test_agent_events_nonexistent_session_returns_404() {
    let mut state = make_state("");
    match agent_events_handler(&mut state, &HeaderMap::new(), &params(&[("session", "nonexistent")])) {
        AgentStream::Refused(r) => assert_eq!(r.status, 404),
        AgentStream::Open { .. } => panic!("connected"),
    }
}

#[test]
fn test_agent_events_valid_session_returns_200() {
    let mut state = make_state("");
    state.agent_broadcast.insert("sid1".to_string(), ChannelMap::new());
    match agent_events_handler(&mut state, &HeaderMap::new(), &params(&[("session", "sid1")])) {
        AgentStream::Refused(_) => panic!("refused"),
        AgentStream::Open { session_id, connection, missed } => {
            assert_eq!(session_id, "sid1");
            assert_eq!(connection, 1);
            assert!(missed.is_empty());
        }
    }
    assert!(state.is_online("sid1"));
}

#[test]
fn an_agent_gets_the_events_it_missed() {
    let mut state = make_state("");
    insert_channel_map(&mut state, "sid1");
    state.buffer_agent_event("sid1", "one");
    state.buffer_agent_event("sid1", "two");
    let mut headers = HeaderMap::new();
    headers.insert("last-event-id", "1".parse().unwrap());
    match agent_events_handler(&mut state, &headers, &params(&[("session", "sid1")])) {
        AgentStream::Open { missed, .. } => assert_eq!(missed, vec![(2, "two".to_string())]),
        AgentStream::Refused(_) => panic!("refused"),
    }
    match agent_events_with(&mut state, "c", Some("sid1"), Some("+0"), 0) {
        AgentStream::Open { missed, .. } => assert_eq!(missed.len(), 2),
        AgentStream::Refused(_) => panic!("refused"),
    }
    match agent_events_with(&mut state, "c", Some("sid1"), Some("x1"), 0) {
        AgentStream::Open { missed, .. } => assert!(missed.is_empty()),
        AgentStream::Refused(_) => panic!("refused"),
    }
}

#[test]
fn agents_connect_at_most_thirty_times_a_minute() {
    let mut state = make_state("");
    insert_channel_map(&mut state, "sid1");
    for _ in 0..30 {
        assert!(matches!(
            agent_events_with(&mut state, "c", Some("sid1"), None, 5),
            AgentStream::Open { .. }
        ));
    }
    match agent_events_with(&mut state, "c", Some("sid1"), None, 6) {
        AgentStream::Refused(r) => assert_eq!(r.status, 429),
        AgentStream::Open { .. } => panic!("connected"),
    }
}

#[test]
fn test_browser_send_missing_token() {
    let mut state = make_state("");
    let b = Json::object().with_str("type", "terminal:input").with("payload", Json::object());
    let r = browser_send_handler(&mut state, &b);
    assert_eq!(r.status, 401);
    assert_eq!(body(&r).str_field("error"), Some("Missing token"));
}

#[test]
fn test_browser_send_readonly_write_forbidden() {
    let mut state = make_state("");
    let (sid, tokens) = state.sessions.register(None, "ro", None).unwrap();
    insert_channel_map(&mut state, &sid);
    let b = Json::object()
        .with_str("token", &tokens[0].0)
        .with_str("type", "terminal:input")
        .with("payload", Json::object());
    let r = browser_send_handler(&mut state, &b);
    assert_eq!(r.status, 403);
    assert!(take_for_agent(&mut state, &sid).is_none());
}

#[test]
fn test_agent_send_register_with_custom_id() {
    let mut state = make_state("");
    let b = Json::object()
        .with_str("type", "agent:register")
        .with_str("token_type", "rw")
        .with_str("session_id", "mydev01");
    let (r, _) = agent_send_handler(&mut state, &HeaderMap::new(), &b);
    assert_eq!(r.status, 200);
    assert_eq!(body(&r).str_field("session_id"), Some("mydev01"));
}

#[test]
fn test_agent_send_register_custom_id_conflict() {
    let mut state = make_state("");
    let b = Json::object()
        .with_str("type", "agent:register")
        .with_str("token_type", "rw")
        .with_str("session_id", "mydev02");
    let (r1, _) = agent_send_handler(&mut state, &HeaderMap::new(), &b);
    assert_eq!(r1.status, 200);
    let (r2, _) = agent_send_handler(&mut state, &HeaderMap::new(), &b);
    assert_eq!(r2.status, 409);
    assert_eq!(text(&r2), "session_id already in use");
}

#[test]
fn test_agent_send_register_invalid_custom_id() {
    let mut state = make_state("");
    let b = Json::object()
        .with_str("type", "agent:register")
        .with_str("token_type", "rw")
        .with_str("session_id", "ab!");
    let (r, _) = agent_send_handler(&mut state, &HeaderMap::new(), &b);
    assert_eq!(r.status, 400);
}

#[test]
fn test_route_agent_message_records_output() {
    let mut state = make_state_with_recorder();
    insert_channel_map(&mut state, "sid1");
    let s1 = add_browser(&mut state, "sid1", "u1");
    let msg = doc("terminal:output", "sid1", Json::object().with_str("data", "hi"));
    route_agent_message(&mut state, "sid1", &msg);
    assert!(take(&mut state, &s1).is_some());
    let rec = state.recorder.as_mut().unwrap();
    assert!(rec.is_recording("sid1"));
    // What is not base64 is recorded as it is.
    assert_eq!(
        rec.take_steps(),
        vec![
            RecordStep::Open("sid1".to_string()),
            RecordStep::Append("sid1".to_string(), RecordEvent::Output("hi".to_string())),
        ]
    );
    rec.close("sid1");
    assert!(!rec.is_recording("sid1"));
}

#[test]
fn output_is_recorded_as_the_terminal_showed_it() {
    let mut state = make_state_with_recorder();
    insert_channel_map(&mut state, "sid1");
    let msg = doc("terminal:output", "sid1", Json::object().with_str("data", "aGVsbG8K"));
    route_agent_message(&mut state, "sid1", &msg);
    assert_eq!(
        state.recorder.as_mut().unwrap().take_steps(),
        vec![
            RecordStep::Open("sid1".to_string()),
            RecordStep::Append("sid1".to_string(), RecordEvent::Output("hello\n".to_string())),
        ]
    );
}

#[test]
fn test_browser_send_records_input() {
    let mut state = make_state_with_recorder();
    let (sid, tokens) = state.sessions.register(None, "rw", None).unwrap();
    state.agent_broadcast.insert(sid.clone(), ChannelMap::new());
    let b = Json::object()
        .with_str("token", &tokens[0].0)
        .with_str("type", "terminal:input")
        .with("payload", Json::object().with_str("data", "ls"));
    let r = browser_send_handler(&mut state, &b);
    assert_eq!(r.status, 202);
    let rec = state.recorder.as_mut().unwrap();
    assert!(rec.is_recording(&sid));
    rec.close(&sid);
}

#[test]
fn a_browser_message_reaches_the_agent() {
    let mut state = make_state("");
    let (sid, tokens) = state.sessions.register(None, "rw", None).unwrap();
    insert_channel_map(&mut state, &sid);
    let b = Json::object()
        .with_str("token", &tokens[0].0)
        .with_str("type", "fs:list")
        .with("payload", Json::object().with_str("path", "."));
    assert_eq!(browser_send_handler(&mut state, &b).status, 202);
    assert_eq!(
        take_for_agent(&mut state, &sid),
        Some(doc("fs:list", &sid, Json::object().with_str("path", ".")))
    );
    assert!(state.last_activity.contains_key(&sid));
    // Without a payload the agent gets null.
    let b = Json::object().with_str("token", &tokens[0].0).with_str("type", "x");
    assert_eq!(browser_send_handler(&mut state, &b).status, 202);
    assert_eq!(take_for_agent(&mut state, &sid), Some(doc("x", &sid, Json::Null)));
}

#[test]
fn a_browser_message_needs_a_known_token_and_a_type() {
    let mut state = make_state("");
    let (_sid, tokens) = state.sessions.register(None, "rw", None).unwrap();
    let b = Json::object().with_str("token", "nope").with_str("type", "x");
    let r = browser_send_handler(&mut state, &b);
    assert_eq!(r.status, 401);
    assert_eq!(body(&r).str_field("error"), Some("Invalid token"));
    let b = Json::object().with_str("token", &tokens[0].0);
    let r = browser_send_handler(&mut state, &b);
    assert_eq!(r.status, 400);
    assert_eq!(body(&r).str_field("error"), Some("Missing message type"));
}

#[test]
fn a_browser_comes_and_goes() {
    let mut state = make_state("");
    let (sid, tokens) = state.sessions.register(None, "both", None).unwrap();
    insert_channel_map(&mut state, &sid);
    let first = match browser_sse_handler(
        &mut state,
        &HeaderMap::new(),
        &params(&[("token", &tokens[1].0)]),
    ) {
        BrowserConnect::Open(b) => b,
        BrowserConnect::Refused(_) => panic!("refused"),
    };
    assert_eq!(first.permission, Permission::ReadOnly);
    assert_eq!(first.session_id, sid);
    assert!(first.stream_id.starts_with("bs_"));
    assert_eq!(first.user_id.len(), 36);
    assert_eq!(first.connected.str_field("type"), Some("browser:connected"));
    assert_eq!(first.connected.at("payload").str_field("permission"), Some("ro"));

    let join = take_for_agent(&mut state, &sid).unwrap();
    assert_eq!(join.str_field("type"), Some("session:join"));
    assert_eq!(join.at("payload").str_field("user_id"), Some(first.user_id.as_str()));
    let users = take(&mut state, &first.stream_id).unwrap();
    assert_eq!(users.at("payload").u64_field("count"), Some(1));

    let second = match browser_sse_with(
        &mut state,
        Some(&tokens[0].0),
        "user-2".to_string(),
        "stream-2".to_string(),
    ) {
        BrowserConnect::Open(b) => b,
        BrowserConnect::Refused(_) => panic!("refused"),
    };
    assert_eq!(second.permission, Permission::ReadWrite);
    for stream in [&first.stream_id, &second.stream_id] {
        let users = take(&mut state, stream).unwrap();
        assert_eq!(users.at("payload").u64_field("count"), Some(2));
    }

    take_for_agent(&mut state, &sid);
    browser_left(&mut state, &first);
    assert!(take(&mut state, &first.stream_id).is_none());
    let users = take(&mut state, &second.stream_id).unwrap();
    assert_eq!(users.at("payload").u64_field("count"), Some(1));
    let leave = take_for_agent(&mut state, &sid).unwrap();
    assert_eq!(leave.str_field("type"), Some("session:leave"));
    assert_eq!(leave.at("payload").str_field("permission"), Some("ro"));
}

#[test]
fn a_browser_needs_a_token() {
    let mut state = make_state("");
    match browser_sse_handler(&mut state, &HeaderMap::new(), &params(&[])) {
        BrowserConnect::Refused(r) => {
            assert_eq!(r.status, 401);
            assert_eq!(body(&r).str_field("error"), Some("Missing token"));
        }
        BrowserConnect::Open(_) => panic!("connected"),
    }
    match browser_sse_handler(&mut state, &HeaderMap::new(), &params(&[("token", "x")])) {
        BrowserConnect::Refused(r) => {
            assert_eq!(body(&r).str_field("error"), Some("Invalid token"));
        }
        BrowserConnect::Open(_) => panic!("connected"),
    }
    assert_eq!(state.sse_sessions.len(), 0);
}

#[test]
fn other_agent_messages_need_the_password() {
    let mut state = make_state("integration-test-pw");
    let b = doc("terminal:output", "nope", Json::object());
    let (r, _) = agent_send_handler(&mut state, &HeaderMap::new(), &b);
    assert_eq!(r.status, 401, "Non-register messages without auth should be 401");
    assert_eq!(text(&r), "Invalid server password");

    let (r, _) = agent_send_handler(
        &mut state,
        &HeaderMap::new(),
        &b.copy().with_str("auth", "integration-test-pw"),
    );
    assert_eq!(r.status, 200);
    let mut headers = HeaderMap::new();
    headers.insert("authorization", "Bearer integration-test-pw".parse().unwrap());
    assert_eq!(agent_send_handler(&mut state, &headers, &b).0.status, 200);

    insert_channel_map(&mut state, "nope");
    assert_eq!(agent_send_handler(&mut state, &HeaderMap::new(), &b).0.status, 200);
}

#[test]
fn registrations_are_limited_per_client() {
    let mut state = make_state("");
    let b = Json::object().with_str("type", "agent:register");
    let mut headers = HeaderMap::new();
    headers.insert("x-forwarded-for", "10.1.1.1".parse().unwrap());
    for _ in 0..10 {
        assert_eq!(agent_send_handler(&mut state, &headers, &b).0.status, 200);
    }
    let (r, _) = agent_send_handler(&mut state, &headers, &b);
    assert_eq!(r.status, 429);
    assert_eq!(text(&r), "Too many registrations from this address");
    assert_eq!(agent_send_handler(&mut state, &HeaderMap::new(), &b).0.status, 200);
}

#[test]
fn there_are_at_most_so_many_sessions() {
    let mut state = make_state("");
    for _ in 0..MAX_SESSIONS {
        state.sessions.register(None, "rw", None).unwrap();
    }
    let b = Json::object().with_str("type", "agent:register");
    let (r, _) = agent_send_handler(&mut state, &HeaderMap::new(), &b);
    assert_eq!(r.status, 503);
    assert_eq!(text(&r), "Session limit reached");
    assert_eq!(state.sessions.count(), MAX_SESSIONS);
}

#[test]
fn tokens_that_are_not_well_formed_are_not_reused() {
    let mut state = make_state("");
    let b = Json::object().with_str("type", "agent:register").with(
        "tokens",
        Json::Arr(vec![Json::object().with_str("token", "t").with_str("permission", "admin")]),
    );
    let (r, _) = agent_send_handler(&mut state, &HeaderMap::new(), &b);
    assert_eq!(r.status, 200);
    assert!(state.sessions.authenticate("t").is_none());
    let b = Json::object()
        .with_str("type", "agent:register")
        .with_str("key", "fixed")
        .with_str("token_type", "weird")
        .with("tokens", Json::Arr(Vec::new()));
    let (r, _) = agent_send_handler(&mut state, &HeaderMap::new(), &b);
    assert_eq!(r.status, 200);
    assert_eq!(state.sessions.authenticate("fixed").unwrap().1, Permission::ReadWrite);
}

#[test]
fn messages_are_taken_in_order() {
    let mut state = make_state("");
    assert!(state.next_for_agent("sid1").is_none());
    insert_channel_map(&mut state, "sid1");
    state.send_to_agent("sid1", doc("a", "sid1", Json::Null));
    state.send_to_agent("sid1", doc("b", "sid1", Json::Null));
    assert_eq!(state.next_for_agent("sid1").unwrap().str_field("type"), Some("a"));
    assert_eq!(state.next_for_agent("sid1").unwrap().str_field("type"), Some("b"));
    assert!(state.next_for_agent("sid1").is_none());

    let stream = add_browser(&mut state, "sid1", "u");
    state.send_to_stream(&stream, doc("c", "sid1", Json::Null));
    assert_eq!(state.next_for_stream(&stream).unwrap().str_field("type"), Some("c"));
    assert!(state.next_for_stream(&stream).is_none());
    assert!(state.next_for_stream("nobody").is_none());
}

#[test]
fn an_offer_is_refused_where_too_many_wait() {
    let mut state = make_state("");
    let m = doc("fs:upload", "sid1", Json::Null);
    assert_eq!(state.offer_to_agent("sid1", 0, m.copy()), Offer::Gone);
    insert_channel_map(&mut state, "sid1");
    for _ in 0..SSE_CHANNEL_CAPACITY {
        assert_eq!(state.offer_to_agent("sid1", 0, m.copy()), Offer::Sent);
    }
    assert_eq!(state.offer_to_agent("sid1", 0, m.copy()), Offer::Full);
    state.next_for_agent("sid1");
    assert_eq!(state.offer_to_agent("sid1", 0, m), Offer::Sent);
}

#[test]
fn an_offer_is_for_one_connection() {
    let mut state = make_state("");
    state.agent_broadcast.insert("sid1".to_string(), ChannelMap::new());
    assert_eq!(state.agent_connection("sid1"), None);
    let mut connections = Vec::new();
    for _ in 0..2 {
        match agent_events_with(&mut state, "c", Some("sid1"), None, 0) {
            AgentStream::Open { connection, .. } => connections.push(connection),
            AgentStream::Refused(_) => panic!("refused"),
        }
    }
    assert_eq!(connections, vec![1, 2]);
    assert_eq!(state.agent_connection("sid1"), Some(2));
    let m = doc("fs:upload", "sid1", Json::Null);
    assert_eq!(state.offer_to_agent("sid1", 1, m.copy()), Offer::Gone);
    assert!(state.next_for_agent("sid1").is_none());
    assert_eq!(state.offer_to_agent("sid1", 2, m.copy()), Offer::Sent);
    assert_eq!(state.next_for_agent("sid1"), Some(m));
}

#[test]
fn what_a_user_types_reaches_the_shell() {
    let mut state = make_state("");
    let (sid, tokens) = state.sessions.register(None, "rw", None).unwrap();
    insert_channel_map(&mut state, &sid);
    let b = Json::object()
        .with_str("token", &tokens[0].0)
        .with_str("type", "terminal:input")
        .with("payload", Json::object().with_str("data", &encode_b64(b"ls\n")));
    assert_eq!(browser_send_handler(&mut state, &b).status, 202);
    let m = Message::from_json(&state.next_for_agent(&sid).unwrap()).unwrap();
    let mut agent = AgentSession::new(sid, "rw", "t1".to_string());
    let actions = agent.handle(&m);
    assert_eq!(actions.len(), 1);
    assert!(matches!(
        &actions[0],
        AgentAction::Input { tab_id, data } if tab_id == "t1" && data == b"ls\n"
    ));
}

#[test]
fn what_a_shell_writes_reaches_every_browser_of_its_session() {
    let mut state = make_state("");
    insert_channel_map(&mut state, "sid1");
    insert_channel_map(&mut state, "sid2");
    let s1 = add_browser(&mut state, "sid1", "user1");
    let s2 = add_browser(&mut state, "sid1", "user2");
    let s3 = add_browser(&mut state, "sid2", "user3");
    let m = make_output_message("sid1", "t1", &b"hi".to_vec(), &None).to_json();
    route_agent_message(&mut state, "sid1", &m);
    assert_eq!(take(&mut state, &s1), Some(m.copy()));
    assert_eq!(take(&mut state, &s2), Some(m));
    assert_eq!(take(&mut state, &s3), None);
    assert!(take_for_agent(&mut state, "sid1").is_none());
    assert!(take_for_agent(&mut state, "sid2").is_none());
}

#[test]
fn a_browser_message_reaches_its_own_agent_only() {
    let mut state = make_state("");
    let (sid, tokens) = state.sessions.register(None, "rw", None).unwrap();
    insert_channel_map(&mut state, &sid);
    insert_channel_map(&mut state, "other");
    let b = Json::object().with_str("token", &tokens[0].0).with_str("type", "fs:list");
    assert_eq!(browser_send_handler(&mut state, &b).status, 202);
    assert!(take_for_agent(&mut state, "other").is_none());
    assert!(take_for_agent(&mut state, &sid).is_some());
}

#[test]
fn results_of_commands_are_not_recorded() {
    let mut state = make_state_with_recorder();
    insert_channel_map(&mut state, "sid1");
    let msg = doc("mcp:result", "sid1", Json::object().with_str("data", "aGVsbG8K"));
    route_agent_message(&mut state, "sid1", &msg);
    assert!(!state.recorder.as_ref().unwrap().is_recording("sid1"));
}
