use axum::http::HeaderMap;
use shell_remote::json::Json;
use shell_remote::relay::mcp::{
    finish_mcp_request, messages_handler, process_mcp_request, process_mcp_with, sse_handler,
    McpPost, McpStep, McpStream,
};
use shell_remote::relay::state::Body;
use shell_remote::relay::ws::route_agent_message;
use shell_remote::relay::{ChannelMap, MessageQueue, SharedState};
use shell_remote::strmap::StrMap;

fn make_state() -> SharedState {
    with_auth("")
}

fn with_auth(auth: &str) -> SharedState {
    SharedState::new(auth.to_string(), 1, None, String::new(), String::new(), None)
}

fn params(pairs: &[(&str, &str)]) -> StrMap<String> {
    let mut m: StrMap<String> = StrMap::new();
    for (k, v) in pairs {
        m.insert(k.to_string(), v.to_string());
    }
    m
}

fn rpc(id: i128, method: &str) -> Json {
    Json::object()
        .with_str("jsonrpc", "2.0")
        .with("id", Json::Int(id))
        .with_str("method", method)
}

fn call(id: i128, tool: &str, args: Json) -> Json {
    rpc(id, "tools/call").with(
        "params",
        Json::object().with_str("name", tool).with("arguments", args),
    )
}

fn mcp_send_and_recv(state: &mut SharedState, body: Json) -> Json {
    state.mcp_sse_channels.insert("mcp-1".to_string(), ());
    let post = messages_handler(
        state,
        &HeaderMap::new(),
        &params(&[("sessionId", "mcp-1")]),
        &body,
    );
    match post {
        McpPost::Accepted { reply, stream_id } => {
            assert_eq!(reply.status, 202);
            assert_eq!(stream_id, "mcp-1");
        }
        McpPost::Refused(_) => panic!("refused"),
    }
    match process_mcp_request(state, None, &body, "0.0.0") {
        McpStep::Respond(j) => j,
        McpStep::Wait { .. } => panic!("waits"),
    }
}

#[test]
fn test_sse_handler_valid_token_returns_200() {
    let mut state = make_state();
    match sse_handler(&mut state, &HeaderMap::new(), &params(&[])) {
        McpStream::Open { stream_id, endpoint } => {
            assert_eq!(endpoint, format!("/agent/mcp/messages?sessionId={}", stream_id));
            assert!(state.mcp_sse_channels.contains_key(&stream_id));
        }
        McpStream::Refused(_) => panic!("refused"),
    }
}

#[test]
fn test_sse_handler_no_token_returns_200() {
    let mut state = make_state();
    assert!(matches!(
        sse_handler(&mut state, &HeaderMap::new(), &params(&[])),
        McpStream::Open { .. }
    ));
}

#[test]
fn test_messages_handler_initialize() {
    let mut state = make_state();
    let r = mcp_send_and_recv(&mut state, rpc(1, "initialize"));
    let result = r.at("result");
    assert_eq!(result.str_field("protocolVersion"), Some("2024-11-05"));
    assert_eq!(result.at("serverInfo").str_field("name"), Some("shell-remote"));
    assert_eq!(result.at("serverInfo").str_field("version"), Some("0.0.0"));
    assert_eq!(r.u64_field("id"), Some(1));
}

#[test]
fn test_messages_handler_tools_list() {
    let mut state = make_state();
    let r = mcp_send_and_recv(&mut state, rpc(2, "tools/list"));
    let tools = r.at("result").at("tools");
    assert_eq!(tools.as_arr().unwrap().len(), 1);
    let tool = &tools.as_arr().unwrap()[0];
    assert_eq!(tool.str_field("name"), Some("exec_remote"));
    let required = tool.at("inputSchema").at("required");
    assert_eq!(
        required,
        Json::Arr(vec![Json::text("token"), Json::text("cmd")])
    );
}

#[test]
fn test_messages_handler_unknown_method() {
    let mut state = make_state();
    let r = mcp_send_and_recv(&mut state, rpc(3, "unknown"));
    assert_eq!(r.at("error").i64_field("code"), Some(-32601));
    assert_eq!(r.at("error").str_field("message"), Some("Unknown method: unknown"));
}

#[test]
fn test_messages_handler_invalid_token_returns_error() {
    let mut state = make_state();
    let args = Json::object().with_str("token", "bad").with_str("cmd", "echo hello");
    let r = mcp_send_and_recv(&mut state, call(6, "exec_remote", args));
    assert_eq!(r.at("error").i64_field("code"), Some(-32001));
}

#[test]
fn test_messages_handler_exec_remote_without_agent() {
    let mut state = make_state();
    let (_sid, tokens) = state.sessions.register(None, "rw", None).unwrap();
    let args = Json::object().with_str("token", &tokens[0].0).with_str("cmd", "echo hello");
    let r = mcp_send_and_recv(&mut state, call(4, "exec_remote", args));
    assert_eq!(r.at("result").bool_field("isError"), Some(true));
    assert_eq!(state.pending_mcp.len(), 0);
}

#[test]
fn an_unknown_tool_is_refused() {
    let mut state = make_state();
    let r = mcp_send_and_recv(&mut state, call(7, "rm", Json::object()));
    assert_eq!(r.at("error").i64_field("code"), Some(-32601));
    assert_eq!(r.at("error").str_field("message"), Some("Unknown tool: rm"));
}

#[test]
fn a_read_only_token_calls_no_tool() {
    let mut state = make_state();
    let (sid, tokens) = state.sessions.register(None, "ro", None).unwrap();
    let mut cm = ChannelMap::new();
    cm.agent = Some(MessageQueue::new());
    state.agent_broadcast.insert(sid.clone(), cm);
    let args = Json::object().with_str("token", &tokens[0].0).with_str("cmd", "id");
    let r = mcp_send_and_recv(&mut state, call(8, "exec_remote", args));
    assert_eq!(r.at("error").i64_field("code"), Some(-32002));
    assert_eq!(state.agent_broadcast.get(&sid).unwrap().agent.as_ref().unwrap().len(), 0);
}

#[test]
fn a_command_goes_to_the_agent_and_its_result_comes_back() {
    let mut state = make_state();
    let (sid, tokens) = state.sessions.register(None, "rw", None).unwrap();
    let mut cm = ChannelMap::new();
    cm.agent = Some(MessageQueue::new());
    state.agent_broadcast.insert(sid.clone(), cm);
    let args = Json::object()
        .with_str("cmd", "uname")
        .with("timeout_ms", Json::Int(900_000));
    let body = call(9, "exec_remote", args);
    let step = process_mcp_with(&mut state, Some(&tokens[0].0), &body, "v", "req-9".to_string());
    let (request_id, rpc_id, timeout_ms) = match step {
        McpStep::Wait { request_id, rpc_id, timeout_ms } => (request_id, rpc_id, timeout_ms),
        McpStep::Respond(_) => panic!("responded"),
    };
    assert_eq!(request_id, "req-9");
    assert_eq!(timeout_ms, 300_000);
    let mut cm = state.agent_broadcast.remove(&sid).unwrap();
    let sent = cm.agent.as_mut().unwrap().pop().unwrap();
    state.agent_broadcast.insert(sid.clone(), cm);
    assert_eq!(sent.str_field("type"), Some("mcp:exec"));
    assert_eq!(sent.at("payload").str_field("cmd"), Some("uname"));
    assert_eq!(sent.at("payload").u64_field("timeout_ms"), Some(900_000));

    let reply = Json::object()
        .with_str("type", "mcp:result")
        .with_str("session_id", &sid)
        .with(
            "payload",
            Json::object()
                .with_str("stdout", "Linux\n")
                .with_str("stderr", "warn")
                .with("exit_code", Json::Int(0))
                .with_str("_mcp_request_id", "req-9"),
        );
    let answer = route_agent_message(&mut state, &sid, &reply).unwrap();
    let r = finish_mcp_request(&mut state, &request_id, rpc_id, Some(&answer.result));
    assert_eq!(r.u64_field("id"), Some(9));
    let content = r.at("result").at("content");
    assert_eq!(
        content.as_arr().unwrap()[0].str_field("text"),
        Some("Linux\n\n[stderr]\nwarn")
    );
    assert!(r.at("result").get("isError").is_none());
}

#[test]
fn a_command_without_output_tells_its_exit_code() {
    let mut state = make_state();
    let result = Json::object()
        .with_str("stdout", "")
        .with_str("stderr", "")
        .with("exit_code", Json::Int(-7));
    let r = finish_mcp_request(&mut state, "r", Json::Null, Some(&result));
    let content = r.at("result").at("content");
    assert_eq!(content.as_arr().unwrap()[0].str_field("text"), Some("Exit code: -7"));
    assert_eq!(r.get("id"), Some(&Json::Null));
}

#[test]
fn a_command_that_is_not_answered_in_time_fails() {
    let mut state = make_state();
    state.pending_mcp.insert("r".to_string(), "s".to_string());
    let r = finish_mcp_request(&mut state, "r", Json::Int(1), None);
    assert_eq!(r.at("result").bool_field("isError"), Some(true));
    let content = r.at("result").at("content");
    assert_eq!(
        content.as_arr().unwrap()[0].str_field("text"),
        Some("Error: Request timed out or agent disconnected")
    );
    assert_eq!(state.pending_mcp.len(), 0);
}

#[test]
fn the_wait_is_thirty_seconds_unless_asked_for() {
    let mut state = make_state();
    let (sid, tokens) = state.sessions.register(None, "rw", None).unwrap();
    let mut cm = ChannelMap::new();
    cm.agent = Some(MessageQueue::new());
    state.agent_broadcast.insert(sid, cm);
    let args = Json::object().with_str("token", &tokens[0].0).with_str("cmd", "x");
    match process_mcp_request(&mut state, None, &call(1, "exec_remote", args), "v") {
        McpStep::Wait { timeout_ms, request_id, .. } => {
            assert_eq!(timeout_ms, 30_000);
            assert_eq!(request_id.len(), 36);
            assert!(state.pending_mcp.contains_key(&request_id));
        }
        McpStep::Respond(_) => panic!("responded"),
    }
}

#[test]
fn the_stream_needs_the_password() {
    let mut state = with_auth("pw");
    match sse_handler(&mut state, &HeaderMap::new(), &params(&[("auth", "bad")])) {
        McpStream::Refused(data) => assert_eq!(
            data,
            "{\"code\":\"AUTH_INVALID_PASSWORD\",\"message\":\"Invalid server password\"}"
        ),
        McpStream::Open { .. } => panic!("opened"),
    }
    assert!(matches!(
        sse_handler(&mut state, &HeaderMap::new(), &params(&[("auth", "pw")])),
        McpStream::Open { .. }
    ));
    // The header comes before the query.
    let mut headers = HeaderMap::new();
    headers.insert("x-auth", "bad".parse().unwrap());
    assert!(matches!(
        sse_handler(&mut state, &headers, &params(&[("auth", "pw")])),
        McpStream::Refused(_)
    ));
}

#[test]
fn a_posted_message_needs_the_password_and_a_stream() {
    let mut state = with_auth("pw");
    let body = rpc(1, "initialize");
    match messages_handler(&mut state, &HeaderMap::new(), &params(&[]), &body) {
        McpPost::Refused(r) => {
            assert_eq!(r.status, 200);
            match r.body {
                Body::Json(j) => assert_eq!(j.at("error").i64_field("code"), Some(-32001)),
                _ => panic!("no JSON"),
            }
        }
        McpPost::Accepted { .. } => panic!("accepted"),
    }
    let body = body.with_str("auth", "pw");
    match messages_handler(&mut state, &HeaderMap::new(), &params(&[]), &body) {
        McpPost::Refused(r) => assert_eq!(r.status, 400),
        McpPost::Accepted { .. } => panic!("accepted"),
    }
    match messages_handler(&mut state, &HeaderMap::new(), &params(&[("sessionId", "x")]), &body) {
        McpPost::Refused(r) => assert_eq!(r.status, 404),
        McpPost::Accepted { .. } => panic!("accepted"),
    }
}

#[test]
fn a_browser_stream_takes_no_posts() {
    let mut state = make_state();
    state.sse_sessions.insert("bs_1".to_string(), MessageQueue::new());
    let body = rpc(1, "initialize");
    match messages_handler(&mut state, &HeaderMap::new(), &params(&[("sessionId", "bs_1")]), &body) {
        McpPost::Refused(r) => assert_eq!(r.status, 404),
        McpPost::Accepted { .. } => panic!("accepted"),
    }
}

#[test]
fn posts_are_limited_per_client() {
    let mut state = make_state();
    let body = rpc(1, "x");
    for _ in 0..60 {
        messages_handler(&mut state, &HeaderMap::new(), &params(&[]), &body);
    }
    match messages_handler(&mut state, &HeaderMap::new(), &params(&[]), &body) {
        McpPost::Refused(r) => assert_eq!(r.status, 429),
        McpPost::Accepted { .. } => panic!("accepted"),
    }
}
