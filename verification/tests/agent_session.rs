use shell_remote::agent::client::{
    events_url, handle_register_response, next_delay, plan_retry, register_message, send_url,
    RegisterFailure, Retry, SseParser,
};
use shell_remote::agent::fs::{decode_b64, done, encode_b64, read_file, ReadOutcome};
use shell_remote::agent::output::OutputBuffer;
use shell_remote::agent::session::{
    command_reply_message, exec_reply_message, fs_reply_message, keep_last, make_output_message,
    read_reply, AgentAction, AgentSession, FsOp, TAB_BUFFER,
};
use shell_remote::agent::exec_sessions::input_failed;
use shell_remote::json::Json;
use shell_remote::proto::{McpResultPayload, Message};
use shell_remote::relay::upload::CHUNK_SIZE;
use shell_remote::relay::ws::agent_send_handler;
use shell_remote::relay::SharedState;

fn msg(t: &str, payload: Json) -> Message {
    Message::new(t, "s1", payload)
}

fn sent(a: &AgentAction) -> &Message {
    match a {
        AgentAction::Send(m) => m,
        _ => panic!("nothing sent"),
    }
}

#[test]
fn test_placeholder() {
    assert!(true);
}

#[test]
fn test_output_coalescing_per_tab() {
    let mut pending = OutputBuffer::new();
    for chunk in [b"a".to_vec(), b"b".to_vec(), b"c".to_vec()] {
        assert!(pending.push("tab1", &chunk));
    }
    assert!(pending.push("tab2", &b"xy".to_vec()));
    assert!(pending.push("tab3", &Vec::new()));
    let drained = pending.flush("s1");
    assert_eq!(drained.len(), 2);
    assert_eq!(drained[0].payload.str_field("tab_id"), Some("tab1"));
    let data = decode_b64(drained[0].payload.str_field("data").unwrap()).unwrap();
    assert_eq!(data, b"abc".to_vec());
    let data = decode_b64(drained[1].payload.str_field("data").unwrap()).unwrap();
    assert_eq!(data, b"xy".to_vec());
    assert!(pending.flush("s1").is_empty());
}

#[test]
fn test_out_control_delivers_serialized_message() {
    let m = Message::new(
        "mcp:result",
        "s1",
        Json::object().with_str("stdout", "hi").with("exit_code", Json::Int(0)),
    );
    let v = m.to_json();
    assert_eq!(v.str_field("type"), Some("mcp:result"));
    assert_eq!(v.at("payload").str_field("stdout"), Some("hi"));
}

#[test]
fn output_messages_carry_bytes() {
    let m = make_output_message("s", "t", &vec![0, 255], &Some("u".to_string()));
    assert_eq!(m.msg_type, "terminal:output");
    assert_eq!(m.session_id, "s");
    assert_eq!(decode_b64(m.payload.str_field("data").unwrap()), Some(vec![0, 255]));
    assert_eq!(m.payload.str_field("_target_user_id"), Some("u"));
    let m = make_output_message("s", "t", &vec![1], &None);
    assert!(m.payload.get("_target_user_id").is_none());
}

#[test]
fn replies_name_the_request() {
    let id = Some("r1".to_string());
    let m = fs_reply_message("s", &done("/p"), &id);
    assert_eq!(m.msg_type, "fs:result");
    assert_eq!(m.payload.str_field("_mcp_request_id"), Some("r1"));
    assert_eq!(m.payload.bool_field("success"), Some(true));
    let r = McpResultPayload { stdout: "o".to_string(), stderr: String::new(), exit_code: 2 };
    let m = command_reply_message("s", &r, &id);
    assert_eq!(m.msg_type, "mcp:result");
    assert_eq!(m.payload.i64_field("exit_code"), Some(2));
    assert_eq!(m.payload.str_field("_mcp_request_id"), Some("r1"));
    let m = exec_reply_message("s", input_failed("e"), &id);
    assert_eq!(m.msg_type, "mcp:exec_result");
    assert_eq!(m.payload.str_field("_mcp_request_id"), Some("r1"));
    assert_eq!(m.payload.str_field("exec_id"), Some("e"));
}

fn read_answer(outcome: &ReadOutcome, id: &Option<String>) -> Vec<Message> {
    let mut all = Vec::new();
    while let Some(m) = read_reply("s", "/f", outcome, all.len(), id) {
        all.push(m);
    }
    all
}

#[test]
fn a_large_file_is_answered_in_chunks() {
    let data: Vec<u8> = (0..600_000u32).map(|i| (i % 239) as u8).collect();
    let id = Some("r1".to_string());
    let all = read_answer(&ReadOutcome::Data(data.clone()), &id);
    assert_eq!(all.len(), 3);
    let mut joined = Vec::new();
    for (i, m) in all.iter().enumerate() {
        assert_eq!(m.msg_type, "fs:result");
        assert_eq!(m.session_id, "s");
        assert_eq!(m.payload.bool_field("success"), Some(true));
        assert_eq!(m.payload.str_field("path"), Some("/f"));
        assert_eq!(m.payload.u64_field("chunk_index"), Some(i as u64));
        assert_eq!(m.payload.u64_field("total_chunks"), Some(3));
        assert_eq!(m.payload.str_field("_mcp_request_id"), Some("r1"));
        let chunk = decode_b64(m.payload.str_field("content").unwrap()).unwrap();
        assert!(chunk.len() <= CHUNK_SIZE);
        joined.extend_from_slice(&chunk);
    }
    assert_eq!(joined, data);
    assert!(read_reply("s", "/f", &ReadOutcome::Data(data), usize::MAX, &None).is_none());
}

#[test]
fn a_small_file_is_answered_in_one_message() {
    for size in [0, 1, CHUNK_SIZE] {
        let data = vec![7u8; size];
        let outcome = ReadOutcome::Data(data.clone());
        let all = read_answer(&outcome, &None);
        assert_eq!(all.len(), 1);
        assert_eq!(all[0], fs_reply_message("s", &read_file("/f", &outcome), &None));
        assert!(all[0].payload.get("chunk_index").is_none());
        assert_eq!(decode_b64(all[0].payload.str_field("content").unwrap()), Some(data));
    }
    assert_eq!(read_answer(&ReadOutcome::Data(vec![7; CHUNK_SIZE + 1]), &None).len(), 2);
}

#[test]
fn a_failed_read_is_answered_once() {
    let all = read_answer(&ReadOutcome::NotAFile, &Some("r1".to_string()));
    assert_eq!(all.len(), 1);
    assert_eq!(all[0].payload.bool_field("success"), Some(false));
    assert_eq!(all[0].payload.str_field("error"), Some("Path is not a file"));
    assert_eq!(all[0].payload.str_field("_mcp_request_id"), Some("r1"));
}

#[test]
fn a_session_begins_with_one_tab() {
    let s = AgentSession::new("s1".to_string(), "rw", "t1".to_string());
    let g = s.greeting();
    assert_eq!(g.len(), 2);
    assert_eq!(sent(&g[0]).msg_type, "session:tab_list");
    let tabs = sent(&g[0]).payload.at("tabs");
    let items = tabs.as_arr().unwrap();
    assert_eq!(items.len(), 1);
    assert_eq!(items[0].str_field("title"), Some("Shell 1"));
    assert_eq!(items[0].bool_field("active"), Some(true));
    assert_eq!(sent(&g[1]).msg_type, "session:tab_switched");
    assert_eq!(sent(&g[1]).payload.str_field("tab_id"), Some("t1"));
    assert_eq!(s.session_id(), "s1");
}

#[test]
fn tabs_are_opened_switched_and_closed() {
    let mut s = AgentSession::new("s1".to_string(), "rw", "t1".to_string());
    let create = Json::object().with_str("_user_id", "u");
    let r = s.handle_with(&msg("session:tab_create", create), "t2".to_string());
    match &r[0] {
        AgentAction::OpenTab { tab_id, title, user } => {
            assert_eq!(tab_id, "t2");
            assert_eq!(title, "Shell 2");
            assert_eq!(user, &Some("u".to_string()));
        }
        _ => panic!("no tab"),
    }
    assert_eq!(s.tab_counter(), 2);
    let r = s.tab_opened("t2".to_string(), "Shell 2".to_string(), &Some("u".to_string()));
    assert!(sent(&r[0]).payload.get("_target_user_id").is_none());
    assert_eq!(sent(&r[1]).payload.str_field("tab_id"), Some("t2"));
    assert_eq!(sent(&r[1]).payload.str_field("_target_user_id"), Some("u"));

    s.tab_wrote("t1", &b"hi".to_vec());
    let switch = Json::object().with_str("tab_id", "t1").with_str("_user_id", "u");
    let r = s.handle(&msg("session:tab_switch", switch));
    assert_eq!(r.len(), 2);
    assert_eq!(sent(&r[0]).payload.str_field("_target_user_id"), Some("u"));
    assert_eq!(sent(&r[1]).payload.str_field("data"), Some(encode_b64(b"hi").as_str()));
    assert_eq!(sent(&r[1]).payload.str_field("_target_user_id"), Some("u"));

    let unknown = Json::object().with_str("tab_id", "t9");
    assert!(s.handle(&msg("session:tab_switch", unknown)).is_empty());

    let close = Json::object().with_str("tab_id", "t1").with_str("_user_id", "u");
    let r = s.handle(&msg("session:tab_close", close));
    assert!(matches!(&r[0], AgentAction::CloseTab { tab_id } if tab_id == "t1"));
    assert!(sent(&r[1]).payload.get("_target_user_id").is_none());
    assert_eq!(sent(&r[2]).payload.str_field("tab_id"), Some("t2"));
    assert_eq!(sent(&r[2]).payload.str_field("_target_user_id"), Some("u"));
    // The last tab stays.
    let close = Json::object().with_str("tab_id", "t2");
    assert!(s.handle(&msg("session:tab_close", close)).is_empty());
}

#[test]
fn who_joins_sees_what_the_tabs_wrote() {
    let mut s = AgentSession::new("s1".to_string(), "rw", "t1".to_string());
    s.tab_opened("t2".to_string(), "Shell 2".to_string(), &None);
    s.tab_wrote("t2", &b"x".to_vec());
    s.tab_wrote("t2", &b"y".to_vec());
    s.tab_wrote("t7", &b"lost".to_vec());
    let r = s.handle(&msg("session:join", Json::object().with_str("user_id", "u")));
    assert_eq!(r.len(), 3);
    assert_eq!(sent(&r[0]).msg_type, "session:tab_list");
    assert_eq!(sent(&r[1]).payload.str_field("data"), Some(encode_b64(b"xy").as_str()));
    assert_eq!(sent(&r[1]).payload.str_field("tab_id"), Some("t2"));
    assert_eq!(sent(&r[2]).msg_type, "session:tab_switched");
    for a in &r {
        assert_eq!(sent(a).payload.str_field("_target_user_id"), Some("u"));
    }
}

#[test]
fn the_end_of_a_tabs_output_is_kept() {
    let full = vec![1u8; TAB_BUFFER];
    let r = keep_last(&full, &vec![2, 3]);
    assert_eq!(r.len(), TAB_BUFFER);
    assert_eq!(&r[TAB_BUFFER - 3..], &[1, 2, 3]);
    assert_eq!(keep_last(&vec![1], &vec![2]), vec![1, 2]);
    let mut long = vec![9u8; TAB_BUFFER + 5];
    long[TAB_BUFFER + 4] = 7;
    let r = keep_last(&vec![1], &long);
    assert_eq!(r.len(), TAB_BUFFER);
    assert_eq!(r[TAB_BUFFER - 1], 7);
}

#[test]
fn a_read_only_agent_refuses_to_write() {
    let mut s = AgentSession::new("s1".to_string(), "ro", "t1".to_string());
    for t in ["terminal:input", "fs:write", "fs:mkdir", "mcp:exec", "session:tab_create"] {
        let r = s.handle(&msg(t, Json::object()));
        assert_eq!(r.len(), 1);
        assert_eq!(sent(&r[0]).msg_type, "error");
        assert_eq!(sent(&r[0]).payload.str_field("code"), Some("PERMISSION_DENIED"));
    }
    let r = s.handle(&msg("fs:list", Json::object()));
    assert!(matches!(
        &r[0],
        AgentAction::Fs { op: FsOp::List { path }, request_id: None } if path == "."
    ));
}

#[test]
fn input_and_size_go_to_the_tab_that_is_meant() {
    let mut s = AgentSession::new("s1".to_string(), "rw", "t1".to_string());
    let p = Json::object().with_str("data", &encode_b64(b"ls\n"));
    let r = s.handle(&msg("terminal:input", p.copy()));
    match &r[0] {
        AgentAction::Input { tab_id, data } => {
            assert_eq!(tab_id, "t1");
            assert_eq!(data, &b"ls\n".to_vec());
        }
        _ => panic!("no input"),
    }
    assert!(s.handle(&msg("terminal:input", p.with_str("tab_id", "t9"))).is_empty());
    assert!(s.handle(&msg("terminal:input", Json::object().with_str("data", "*"))).is_empty());
    let r = s.handle(&msg("terminal:resize", Json::object().with("cols", Json::Int(120))));
    assert!(matches!(&r[0], AgentAction::Resize { cols: 120, rows: 24, .. }));
    let r = s.handle(&msg("terminal:resize", Json::object().with("cols", Json::Int(65537))));
    assert!(matches!(&r[0], AgentAction::Resize { cols: 1, rows: 24, .. }));
    assert!(s.handle(&msg("who:knows", Json::object())).is_empty());
}

#[test]
fn commands_and_files_are_asked_for() {
    let mut s = AgentSession::new("s1".to_string(), "rw", "t1".to_string());
    let p = Json::object().with_str("cmd", "id").with_str("_mcp_request_id", "r");
    match &s.handle(&msg("mcp:exec", p.copy()))[0] {
        AgentAction::Exec { cmd, timeout_ms, request_id } => {
            assert_eq!(cmd, "id");
            assert_eq!(*timeout_ms, 30_000);
            assert_eq!(request_id, &Some("r".to_string()));
        }
        _ => panic!("no command"),
    }
    assert!(matches!(&s.handle(&msg("mcp:exec_start", p))[0], AgentAction::ExecStart { .. }));
    let p = Json::object().with_str("exec_id", "e").with_str("data_b64", &encode_b64(b"q"));
    match &s.handle(&msg("mcp:exec_input", p.copy()))[0] {
        AgentAction::ExecInput { exec_id, data, .. } => {
            assert_eq!(exec_id, "e");
            assert_eq!(data, &b"q".to_vec());
        }
        _ => panic!("no input"),
    }
    assert!(matches!(&s.handle(&msg("mcp:exec_close", p))[0], AgentAction::ExecClose { .. }));
    assert!(matches!(
        &s.handle(&msg("mcp:exec_list", Json::object()))[0],
        AgentAction::ExecList { request_id: None }
    ));
    let p = Json::object().with_str("from", "a").with_str("to", "b");
    match &s.handle(&msg("fs:rename", p))[0] {
        AgentAction::Fs { op: FsOp::Rename { from, to }, .. } => {
            assert_eq!(from, "a");
            assert_eq!(to, "b");
        }
        _ => panic!("no file operation"),
    }
}

// ── the connection ──

#[test]
fn addresses_of_the_relay() {
    assert_eq!(send_url("https://r.example//"), "https://r.example/agent/send");
    assert_eq!(
        events_url("http://r:1", "abc"),
        "http://r:1/agent/events?session=abc"
    );
}

#[test]
fn a_registration_is_read() {
    let mut state =
        SharedState::new("pw".to_string(), 1, None, String::new(), String::new(), None);
    let m = register_message(&None, "both", &None, &Some("mydev01".to_string()));
    let (reply, _) = agent_send_handler(&mut state, &axum::http::HeaderMap::new(), &m);
    let doc = match reply.body {
        shell_remote::relay::state::Body::Json(j) => j,
        _ => panic!("no document"),
    };
    let reg = match handle_register_response(&doc) {
        Ok(r) => r,
        Err(e) => panic!("{}", e.message()),
    };
    assert_eq!(reg.session_id, "mydev01");
    assert_eq!(reg.tokens.len(), 2);
    assert_eq!(reg.tokens[0].1, "rw");
    assert_eq!(reg.tokens[1].1, "ro");
    assert_eq!(state.sessions.authenticate(&reg.tokens[0].0).unwrap().0, "mydev01");

    // An agent that comes back brings its tokens along.
    let again = register_message(&None, "both", &Some(reg.tokens), &None);
    let list = again.at("tokens");
    assert_eq!(list.as_arr().unwrap().len(), 2);
    assert!(again.get("session_id").is_none());
    assert_eq!(again.get("key"), Some(&Json::Null));
}

#[test]
fn what_is_no_registration_is_refused() {
    let failure = |j: Json| match handle_register_response(&j) {
        Ok(_) => panic!("taken"),
        Err(e) => e,
    };
    let e = failure(Json::object());
    assert!(matches!(e, RegisterFailure::NoSession));
    assert_eq!(e.message(), "Missing session_id in register response");
    let e = failure(Json::object().with_str("session_id", "s").with_str("type", "error"));
    assert_eq!(e.message(), "Unexpected register response type: error");
    let with_tokens = |item: Json| {
        Json::object()
            .with_str("session_id", "s")
            .with_str("type", "agent:registered")
            .with("payload", Json::object().with("tokens", Json::Arr(vec![item])))
    };
    let e = failure(with_tokens(Json::object()));
    assert_eq!(e.message(), "Missing token in tokens array");
    let e = failure(with_tokens(Json::object().with_str("token", "t")));
    assert_eq!(e.message(), "Missing permission in tokens array");
}

#[test]
fn waits_double_up_to_five_minutes() {
    let mut d = 1;
    let mut seen = Vec::new();
    for _ in 0..11 {
        seen.push(d);
        d = next_delay(d);
    }
    assert_eq!(seen, vec![1, 2, 4, 8, 16, 32, 64, 128, 256, 300, 300]);
    assert_eq!(next_delay(149), 298);
    assert_eq!(next_delay(150), 300);
    assert_eq!(next_delay(u64::MAX), 300);
}

#[test]
fn a_conflict_and_the_last_attempt_are_final() {
    assert_eq!(plan_retry(Some(409), 1, 30, 4), Retry::GiveUp);
    assert_eq!(plan_retry(Some(500), 1, 30, 4), Retry::After(4));
    assert_eq!(plan_retry(None, 29, 30, 8), Retry::After(8));
    assert_eq!(plan_retry(None, 30, 30, 8), Retry::GiveUp);
}

#[test]
fn events_are_read_in_any_pieces() {
    let text = "id: 1\ndata: {\"a\":1}\n\n: ping\n\ndata:two\ndata: three\n\ndata: half";
    let mut whole = SseParser::new();
    let all = whole.feed(text);
    assert_eq!(all, vec!["{\"a\":1}", "two", "three"]);
    let mut parser = SseParser::new();
    let mut pieces = Vec::new();
    for c in text.chars() {
        pieces.extend(parser.feed(&c.to_string()));
    }
    assert_eq!(pieces, all);
    assert_eq!(parser.feed("\n\n"), vec!["half"]);
}
