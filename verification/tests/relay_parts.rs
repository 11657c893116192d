use axum::http::HeaderMap;
use shell_remote::clock::{past_epoch, shown, unix_secs, Clock, MAX_NANOS};
use shell_remote::agent::fs::decode_b64;
use shell_remote::json::Json;
use shell_remote::proto::Permission;
use shell_remote::relay::config::{admin_prefix, relay_config, ConfigError};
use shell_remote::relay::idle::{reap, sweep_idle, sweep_idle_at};
use shell_remote::relay::recorder::{
    cast_event, cast_file_name, cast_header, decode_terminal_data, terminal_text, RecordEvent,
    RecordStep, Recorder,
};
use shell_remote::relay::state::Offer;
use shell_remote::relay::upload::{
    count_chunks, temp_file, temp_file_with, upload_handler, Upload, UploadAction, UploadEvent,
    UploadGate, CHUNK_SIZE,
};
use shell_remote::relay::web::{
    asset_for, fill_installer, install_script_handler, install_script_ps1_handler, page_for,
    relay_url_for, resolve_asset,
};
use shell_remote::relay::ws::{agent_events_with, AgentStream};
use shell_remote::relay::{
    ChannelMap, EventBuffer, MessageQueue, RateLimiter, SharedState, MAX_EVENT_BUFFER_BYTES,
    SSE_CHANNEL_CAPACITY,
};
use shell_remote::strmap::StrMap;

fn state() -> SharedState {
    SharedState::new(String::new(), 100 * 1024 * 1024, None, String::new(), String::new(), None)
}

fn params(pairs: &[(&str, &str)]) -> StrMap<String> {
    let mut m: StrMap<String> = StrMap::new();
    for (k, v) in pairs {
        m.insert(k.to_string(), v.to_string());
    }
    m
}

fn bearer(token: &str) -> HeaderMap {
    let mut headers = HeaderMap::new();
    headers.insert("authorization", format!("Bearer {}", token).parse().unwrap());
    headers
}

fn msg(t: &str, n: i128) -> Json {
    Json::object().with_str("type", t).with("n", Json::Int(n))
}

// ── events ──

#[test]
fn test_event_buffer_push_and_replay() {
    let mut buf = EventBuffer::new();
    let id1 = buf.push("msg1".into());
    let id2 = buf.push("msg2".into());
    let id3 = buf.push("msg3".into());
    assert_eq!(id1, 1);
    assert_eq!(id2, 2);
    assert_eq!(id3, 3);

    let replay = buf.replay_from(1);
    assert_eq!(replay.len(), 2);
    assert_eq!(replay[0].0, 2);
    assert_eq!(replay[1].0, 3);
}

#[test]
fn test_event_buffer_replay_from_zero() {
    let mut buf = EventBuffer::new();
    buf.push("a".into());
    buf.push("b".into());
    let replay = buf.replay_from(0);
    assert_eq!(replay.len(), 2);
}

#[test]
fn test_event_buffer_replay_none_found() {
    let mut buf = EventBuffer::new();
    buf.push("x".into());
    let replay = buf.replay_from(5);
    assert!(replay.is_empty());
}

#[test]
fn test_event_buffer_max_capacity() {
    let mut buf = EventBuffer::new();
    for i in 0..1200 {
        buf.push(format!("msg{}", i));
    }
    let replay = buf.replay_from(0);
    assert_eq!(replay.len(), 1000);
    assert_eq!(replay[0].0, 201);
}

#[test]
fn test_event_buffer_byte_cap_evicts_oldest() {
    let mut buf = EventBuffer::new();
    let big = "x".repeat(MAX_EVENT_BUFFER_BYTES / 2 + 1024);
    buf.push(big.clone());
    buf.push(big.clone());
    let replay = buf.replay_from(0);
    assert_eq!(replay.len(), 1, "byte cap should have evicted the oldest");
    assert_eq!(replay[0].0, 2);
}

#[test]
fn an_event_over_the_cap_is_numbered_and_not_kept() {
    let mut buf = EventBuffer::new();
    assert_eq!(buf.push("small".into()), 1);
    assert_eq!(buf.push("x".repeat(MAX_EVENT_BUFFER_BYTES + 1)), 2);
    assert!(buf.replay_from(0).is_empty());
    assert_eq!(buf.push("next".into()), 3);
    assert_eq!(buf.replay_from(0), vec![(3, "next".to_string())]);
    // One of exactly the size of the cap is kept, alone.
    assert_eq!(buf.push("y".repeat(MAX_EVENT_BUFFER_BYTES)), 4);
    let replay = buf.replay_from(0);
    assert_eq!(replay.len(), 1);
    assert_eq!(replay[0].0, 4);
}

#[test]
fn agent_events_are_numbered_per_session() {
    let mut s = state();
    assert_eq!(s.last_event_id("a"), 0);
    assert_eq!(s.buffer_agent_event("a", "one"), 1);
    assert_eq!(s.buffer_agent_event("a", "two"), 2);
    assert_eq!(s.buffer_agent_event("b", "one"), 1);
    assert_eq!(s.last_event_id("a"), 2);
    let replay = s.replay("a", 1);
    assert_eq!(replay, vec![(2, "two".to_string())]);
    assert!(s.replay("c", 0).is_empty());
}

// ── rate limits ──

#[test]
fn a_client_is_let_through_so_often_in_a_window() {
    let sec = 1_000_000_000u128;
    let mut rl = RateLimiter::new();
    assert!(rl.check_at("a", 2, 60 * sec, 0));
    assert!(rl.check_at("a", 2, 60 * sec, sec));
    assert!(!rl.check_at("a", 2, 60 * sec, 2 * sec));
    assert!(rl.check_at("b", 2, 60 * sec, 2 * sec));
    // The first attempt is out of the window once 60 seconds have passed.
    assert!(!rl.check_at("a", 2, 60 * sec, 60 * sec - 1));
    assert!(rl.check_at("a", 2, 60 * sec, 60 * sec));
    assert!(!rl.check_at("a", 2, 60 * sec, 60 * sec));
    // A window may be shorter than a second.
    let mut rl = RateLimiter::new();
    assert!(rl.check_at("a", 1, sec / 2, 0));
    assert!(!rl.check_at("a", 1, sec / 2, sec / 2 - 1));
    assert!(rl.check_at("a", 1, sec / 2, sec / 2));
}

#[test]
fn the_limit_holds_by_the_clock() {
    let sec = 1_000_000_000u128;
    let mut rl = RateLimiter::new();
    for _ in 0..3 {
        assert!(rl.check("k", 3, 3600 * sec));
    }
    assert!(!rl.check("k", 3, 3600 * sec));
    assert!(rl.check("other", 3, 3600 * sec));
    assert!(!rl.check("never", 0, 3600 * sec));
}

// ── clocks ──

#[test]
fn a_clock_shows_what_has_passed() {
    assert_eq!(shown(0), 0);
    assert_eq!(shown(1_500_000_000), 1_500_000_000);
    assert_eq!(shown(MAX_NANOS), MAX_NANOS);
    assert_eq!(shown(MAX_NANOS + 1), MAX_NANOS);
    let clock = Clock::start();
    let first = clock.nanos();
    let second = clock.nanos();
    assert!(first <= second);
    assert!(second < 20_000_000_000);
}

#[test]
fn seconds_are_counted_from_the_epoch() {
    assert_eq!(past_epoch(Some(1718300000)), 1718300000);
    assert_eq!(past_epoch(None), 0);
    assert!(unix_secs() > 1_500_000_000);
}

// ── queues ──

#[test]
fn a_full_queue_drops_terminal_output_first() {
    let mut q = MessageQueue::new();
    q.deliver(msg("session:users", 0));
    q.deliver(msg("terminal:output", 1));
    for n in 2..SSE_CHANNEL_CAPACITY as i128 {
        q.deliver(msg("fs:result", n));
    }
    assert_eq!(q.len(), SSE_CHANNEL_CAPACITY);
    // Output that comes late is dropped.
    q.deliver(msg("terminal:output", 900));
    assert_eq!(q.len(), SSE_CHANNEL_CAPACITY);
    // A result takes the place of queued output.
    q.deliver(msg("mcp:result", 901));
    assert_eq!(q.len(), SSE_CHANNEL_CAPACITY);
    // With no output left, what comes is dropped.
    q.deliver(msg("mcp:result", 902));
    assert_eq!(q.len(), SSE_CHANNEL_CAPACITY);

    let mut seen = Vec::new();
    while let Some(m) = q.pop() {
        seen.push(m.i64_field("n").unwrap());
    }
    assert_eq!(seen.len(), SSE_CHANNEL_CAPACITY);
    assert_eq!(seen[0], 0);
    assert_eq!(seen[1], 2);
    assert_eq!(*seen.last().unwrap(), 901);
    assert!(!seen.contains(&1));
    assert!(!seen.contains(&900));
    assert!(!seen.contains(&902));
}

#[test]
fn an_offer_waits_for_room() {
    let mut q = MessageQueue::new();
    for n in 0..SSE_CHANNEL_CAPACITY as i128 {
        assert!(q.offer(msg("fs:upload", n)));
    }
    assert!(!q.offer(msg("fs:upload", 999)));
    assert_eq!(q.pop().unwrap().i64_field("n"), Some(0));
    assert!(q.offer(msg("fs:upload", 999)));
}

// ── recording ──

#[test]
fn test_decode_terminal_data_base64() {
    assert_eq!(decode_terminal_data("aGVsbG8K"), "hello\n");
    assert_eq!(decode_terminal_data("hello-world"), "hello-world");
    assert_eq!(decode_terminal_data(""), "");
}

#[test]
fn test_is_recording_lifecycle() {
    let mut rec = Recorder::new("/tmp/rec".to_string());
    assert!(!rec.is_recording("s3"));
    rec.record("s3", RecordEvent::Output("x".to_string()));
    assert!(rec.is_recording("s3"));
    rec.close("s3");
    assert!(!rec.is_recording("s3"));
}

#[test]
fn test_records_output_and_input_events() {
    let mut rec = Recorder::new("/tmp/rec".to_string());
    rec.record("s1", RecordEvent::Output("hello\n".to_string()));
    rec.record("s1", RecordEvent::Input("ls".to_string()));
    rec.close("s1");
    assert_eq!(
        rec.take_steps(),
        vec![
            RecordStep::Open("s1".to_string()),
            RecordStep::Append("s1".to_string(), RecordEvent::Output("hello\n".to_string())),
            RecordStep::Append("s1".to_string(), RecordEvent::Input("ls".to_string())),
            RecordStep::Close("s1".to_string()),
        ]
    );
    assert!(rec.take_steps().is_empty());
    assert_eq!(rec.dir(), "/tmp/rec");

    let header = cast_header(1718300000);
    assert_eq!(header.u64_field("version"), Some(2));
    assert_eq!(header.u64_field("width"), Some(80));
    assert_eq!(header.u64_field("height"), Some(24));
    assert_eq!(header.u64_field("timestamp"), Some(1718300000));

    let ev1 = cast_event("0.5".to_string(), &RecordEvent::Output("hello\n".to_string()));
    let items = ev1.as_arr().unwrap();
    assert_eq!(items[0], Json::Float("0.5".to_string()));
    assert_eq!(items[1].as_str(), Some("o"));
    assert_eq!(items[2].as_str(), Some("hello\n"));
    let ev2 = cast_event("1.25".to_string(), &RecordEvent::Input("ls".to_string()));
    assert_eq!(ev2.as_arr().unwrap()[1].as_str(), Some("i"));
    assert_eq!(ev2.as_arr().unwrap()[2].as_str(), Some("ls"));
}

#[test]
fn test_json_escapes_special_chars() {
    let mut rec = Recorder::new("d".to_string());
    rec.record("s2", RecordEvent::Output("a\"b\\c\n".to_string()));
    rec.close("s2");
    let steps = rec.take_steps();
    assert_eq!(steps.len(), 3);
    assert_eq!(steps[2], RecordStep::Close("s2".to_string()));
    match &steps[1] {
        RecordStep::Append(sid, event) => {
            assert_eq!(sid, "s2");
            let line = cast_event("0.1".to_string(), event);
            assert_eq!(line.as_arr().unwrap()[2].as_str(), Some("a\"b\\c\n"));
        }
        _ => panic!("not recorded"),
    }
}

#[test]
fn closing_what_is_not_recorded_does_nothing() {
    let mut rec = Recorder::new("d".to_string());
    rec.close("nobody");
    assert!(rec.take_steps().is_empty());
    rec.record("a", RecordEvent::Output("1".to_string()));
    rec.close("b");
    assert!(rec.is_recording("a"));
    assert_eq!(rec.take_steps().len(), 2);
}

#[test]
fn cast_files_are_named_after_the_session() {
    assert_eq!(cast_file_name("mydev01", 1718300000), "mydev01_1718300000.cast");
    assert_eq!(cast_file_name("x", 0), "x_0.cast");
}

#[test]
fn terminal_bytes_become_text() {
    assert_eq!(terminal_text(&Some(b"ok".to_vec()), "raw"), "ok");
    assert_eq!(terminal_text(&None, "raw"), "raw");
    assert_eq!(terminal_text(&Some(vec![0xff]), "raw"), "\u{fffd}");
}

#[test]
fn streams_have_names() {
    let out = RecordEvent::Output("a".to_string());
    let inp = RecordEvent::Input("b".to_string());
    assert_eq!(out.stream_char(), "o");
    assert_eq!(inp.stream_char(), "i");
    assert_eq!(out.data(), "a");
    assert_eq!(inp.data(), "b");
}

// ── uploads ──

#[test]
fn test_upload_handler_unauthorized_no_token() {
    let mut s = state();
    let headers = HeaderMap::new();
    let r = upload_handler(&mut s, &headers, &params(&[]));
    assert!(matches!(r, UploadGate::Refused(401)));
}

#[test]
fn test_upload_handler_readonly_token_forbidden() {
    let mut s = state();
    let (_sid, tokens) = s.sessions.register(None, "ro", None).unwrap();
    let r = upload_handler(&mut s, &bearer(&tokens[0].0), &params(&[("path", "/tmp/test")]));
    assert!(matches!(r, UploadGate::Refused(403)));
}

#[test]
fn test_upload_handler_missing_path() {
    let mut s = state();
    let (_sid, tokens) = s.sessions.register(None, "rw", None).unwrap();
    let r = upload_handler(&mut s, &bearer(&tokens[0].0), &params(&[]));
    assert!(matches!(r, UploadGate::Refused(400)));
}

fn connected_agent(s: &mut SharedState, sid: &str) {
    let mut cm = ChannelMap::new();
    cm.agent = Some(MessageQueue::new());
    s.agent_broadcast.insert(sid.to_string(), cm);
}

fn opened(s: &mut SharedState, token: &str, path: &str) -> Upload {
    match upload_handler(s, &bearer(token), &params(&[("path", path)])) {
        UploadGate::Open(upload) => upload,
        UploadGate::Refused(status) => panic!("refused with {}", status),
    }
}

/// Uploads a body that comes in pieces, with the messages that the agent gets.
fn run_upload(
    s: &mut SharedState,
    upload: &mut Upload,
    body: &[u8],
    piece: usize,
) -> (u16, Vec<Json>) {
    let sid = upload.session_id().to_string();
    let mut got = Vec::new();
    let mut kept: Vec<u8> = Vec::new();
    let mut read = 0;
    for p in body.chunks(piece) {
        match upload.step(UploadEvent::Piece(p.len())) {
            UploadAction::Store => kept.extend_from_slice(p),
            UploadAction::Answer(status) => return (status, got),
            _ => panic!("unexpected"),
        }
    }
    let mut action = upload.body_ended(s);
    loop {
        action = match action {
            UploadAction::Answer(status) => return (status, got),
            UploadAction::ReadChunk(max) => {
                let data: Vec<u8> = kept[read..].iter().take(max).copied().collect();
                read += data.len();
                if data.is_empty() {
                    upload.step(UploadEvent::FileEnd)
                } else {
                    upload.step(UploadEvent::Chunk(data))
                }
            }
            UploadAction::Offer(m) => upload.offer_to(s, m),
            UploadAction::Wait => {
                got.push(s.next_for_agent(&sid).unwrap());
                upload.step(UploadEvent::Ready)
            }
            UploadAction::Store => panic!("unexpected"),
        };
        if matches!(action, UploadAction::Answer(_)) {
            while let Some(m) = s.next_for_agent(&sid) {
                got.push(m);
            }
        }
    }
}

#[test]
fn test_upload_handler_sends_base64_content_to_agent() {
    let mut s = state();
    let (sid, tokens) = s.sessions.register(None, "rw", None).unwrap();
    connected_agent(&mut s, &sid);
    let mut upload = opened(&mut s, &tokens[0].0, "/tmp/uploaded.txt");
    let (status, got) = run_upload(&mut s, &mut upload, b"hello world", 4);
    assert_eq!(status, 200);
    assert_eq!(got.len(), 1);
    let v = &got[0];
    assert_eq!(v.str_field("type"), Some("fs:upload"));
    assert_eq!(v.str_field("session_id"), Some(sid.as_str()));
    let payload = v.at("payload");
    assert_eq!(payload.str_field("final_path"), Some("/tmp/uploaded.txt"));
    assert!(payload.get("temp_path").is_none());
    let decoded = decode_b64(payload.str_field("content").unwrap()).unwrap();
    assert_eq!(decoded, b"hello world".to_vec());
}

#[test]
fn test_upload_handler_chunks_large_file() {
    let mut s = state();
    let (sid, tokens) = s.sessions.register(None, "rw", None).unwrap();
    connected_agent(&mut s, &sid);
    let mut upload = opened(&mut s, &tokens[0].0, "/tmp/big.bin");
    let original: Vec<u8> = (0..300_000).map(|i| (i % 251) as u8).collect();
    let (status, got) = run_upload(&mut s, &mut upload, &original, 1000);
    assert_eq!(status, 200);
    assert_eq!(got.len(), 2);
    let mut reassembled = Vec::new();
    let mut last_index: i64 = -1;
    for v in &got {
        assert_eq!(v.str_field("type"), Some("fs:upload"));
        let p = v.at("payload");
        let ci = p.u64_field("chunk_index").unwrap();
        let tc = p.u64_field("total_chunks").unwrap();
        assert_eq!(tc, 2);
        assert_eq!(ci as i64, last_index + 1, "chunks must arrive in order");
        last_index = ci as i64;
        assert_eq!(p.str_field("upload_id"), got[0].at("payload").str_field("upload_id"));
        let chunk = decode_b64(p.str_field("content").unwrap()).unwrap();
        assert!(chunk.len() <= CHUNK_SIZE);
        reassembled.extend_from_slice(&chunk);
    }
    assert_eq!(reassembled, original);
}

#[test]
fn an_upload_waits_for_a_slow_agent() {
    let mut s = state();
    let (sid, tokens) = s.sessions.register(None, "rw", None).unwrap();
    connected_agent(&mut s, &sid);
    let waiting = Json::object().with_str("type", "fs:list");
    for _ in 0..SSE_CHANNEL_CAPACITY {
        s.send_to_agent(&sid, waiting.copy());
    }
    let mut upload = opened(&mut s, &tokens[0].0, "/f");
    let (status, got) = run_upload(&mut s, &mut upload, &[7; 600_000], 600_000);
    assert_eq!(status, 200);
    assert_eq!(got.len(), SSE_CHANNEL_CAPACITY + 3);
    assert_eq!(got[0], waiting);
    assert_eq!(got[SSE_CHANNEL_CAPACITY + 2].at("payload").u64_field("chunk_index"), Some(2));
}

#[test]
fn an_upload_over_the_limit_sends_nothing() {
    let mut s = SharedState::new(String::new(), 10, None, String::new(), String::new(), None);
    let (sid, tokens) = s.sessions.register(None, "rw", None).unwrap();
    connected_agent(&mut s, &sid);
    let mut upload = opened(&mut s, &tokens[0].0, "/f");
    let (status, got) = run_upload(&mut s, &mut upload, &[1; 11], 5);
    assert_eq!(status, 413);
    assert!(got.is_empty());
    assert!(s.next_for_agent(&sid).is_none());
    assert!(matches!(upload.step(UploadEvent::Piece(1)), UploadAction::Answer(413)));
    let mut upload = opened(&mut s, &tokens[0].0, "/f");
    assert_eq!(run_upload(&mut s, &mut upload, &[1; 10], 5).0, 200);
}

#[test]
fn an_upload_without_an_agent_fails() {
    let mut s = state();
    let (_sid, tokens) = s.sessions.register(None, "rw", None).unwrap();
    let mut upload = opened(&mut s, &tokens[0].0, "/f");
    let (status, got) = run_upload(&mut s, &mut upload, b"x", 1);
    assert_eq!(status, 500);
    assert!(got.is_empty());
    let mut upload = opened(&mut s, &tokens[0].0, "/f");
    assert_eq!(run_upload(&mut s, &mut upload, b"", 1).0, 500);
}

#[test]
fn an_empty_upload_sends_nothing() {
    let mut s = state();
    let (sid, tokens) = s.sessions.register(None, "rw", None).unwrap();
    connected_agent(&mut s, &sid);
    let mut upload = opened(&mut s, &tokens[0].0, "/f");
    assert_eq!(run_upload(&mut s, &mut upload, b"", 1), (200, Vec::new()));
}

#[test]
fn an_upload_fails_where_the_agent_goes_or_the_file_cannot_be_read() {
    let mut s = state();
    let (sid, tokens) = s.sessions.register(None, "rw", None).unwrap();
    connected_agent(&mut s, &sid);
    let mut upload = opened(&mut s, &tokens[0].0, "/f");
    upload.step(UploadEvent::Piece(1));
    upload.body_ended(&s);
    let a = upload.step(UploadEvent::Chunk(vec![1]));
    assert!(matches!(a, UploadAction::Offer(_)));
    assert!(matches!(
        upload.step(UploadEvent::Offered(Offer::Gone)),
        UploadAction::Answer(500)
    ));
    let mut upload = opened(&mut s, &tokens[0].0, "/f");
    assert!(matches!(upload.step(UploadEvent::IoFailed), UploadAction::Answer(500)));
    let mut upload = opened(&mut s, &tokens[0].0, "/f");
    upload.body_ended(&s);
    assert!(matches!(upload.step(UploadEvent::IoFailed), UploadAction::Answer(500)));
}

#[test]
fn an_upload_fails_where_the_agent_connects_again_midway() {
    let mut s = state();
    let (sid, tokens) = s.sessions.register(None, "rw", None).unwrap();
    s.agent_broadcast.insert(sid.clone(), ChannelMap::new());
    let connect = |s: &mut SharedState| {
        let opened = agent_events_with(s, "agent", Some(&sid), None, 0);
        assert!(matches!(opened, AgentStream::Open { .. }));
    };
    connect(&mut s);
    let mut upload = opened(&mut s, &tokens[0].0, "/f");
    upload.step(UploadEvent::Piece(CHUNK_SIZE + 1));
    assert!(matches!(upload.body_ended(&s), UploadAction::ReadChunk(CHUNK_SIZE)));
    let m = match upload.step(UploadEvent::Chunk(vec![1; CHUNK_SIZE])) {
        UploadAction::Offer(m) => m,
        _ => panic!("no offer"),
    };
    assert!(matches!(upload.offer_to(&mut s, m), UploadAction::ReadChunk(_)));
    connect(&mut s);
    let m = match upload.step(UploadEvent::Chunk(vec![2])) {
        UploadAction::Offer(m) => m,
        _ => panic!("no offer"),
    };
    assert!(matches!(upload.offer_to(&mut s, m), UploadAction::Answer(500)));
    assert!(s.next_for_agent(&sid).is_none());
    assert!(matches!(upload.step(UploadEvent::FileEnd), UploadAction::Answer(500)));

    let mut upload = opened(&mut s, &tokens[0].0, "/f");
    connect(&mut s);
    let (status, got) = run_upload(&mut s, &mut upload, b"x", 1);
    assert_eq!((status, got.len()), (200, 1));
}

#[test]
fn uploads_are_limited_per_client() {
    let mut s = state();
    let (_sid, tokens) = s.sessions.register(None, "rw", None).unwrap();
    let headers = bearer(&tokens[0].0);
    let p = params(&[("path", "/x")]);
    for _ in 0..20 {
        assert!(matches!(upload_handler(&mut s, &headers, &p), UploadGate::Open(_)));
    }
    assert!(matches!(upload_handler(&mut s, &headers, &p), UploadGate::Refused(429)));
}

#[test]
fn an_upload_with_an_unknown_token_is_refused() {
    let mut s = state();
    let r = upload_handler(&mut s, &bearer("nope"), &params(&[("path", "/x")]));
    assert!(matches!(r, UploadGate::Refused(401)));
    let r = upload_handler(
        &mut s,
        &HeaderMap::new(),
        &params(&[("path", "/x"), ("token", "nope")]),
    );
    assert!(matches!(r, UploadGate::Refused(401)));
}

#[test]
fn chunks_are_counted() {
    assert_eq!(count_chunks(0), 0);
    assert_eq!(count_chunks(1), 1);
    assert_eq!(count_chunks(262144), 1);
    assert_eq!(count_chunks(262145), 2);
    assert_eq!(count_chunks(u64::MAX), 70368744177664);
}

#[test]
fn temporary_files_have_flat_names() {
    assert_eq!(temp_file_with("id", "/tmp/a b/c"), "id__tmp_a b_c");
    let a = temp_file("/x/y");
    let b = temp_file("/x/y");
    assert!(a.ends_with("__x_y"));
    assert_eq!(a.len(), 36 + 5);
    assert_ne!(a, b);
    assert_eq!(a.chars().nth(14), Some('4'));
}

// ── pages and installers ──

const SCRIPT: &str = "#!/bin/sh\nRELAY_URL=\"__RELAY_URL__\"\nexec agent --relay-url \"$RELAY_URL\"\n";

#[test]
fn test_install_script_handler_returns_script() {
    let mut headers = HeaderMap::new();
    headers.insert("host", "example.com:3000".parse().unwrap());
    let text = install_script_handler(SCRIPT, &headers);
    assert!(text.contains("RELAY_URL=\"http://example.com:3000\""));
    assert!(text.contains("agent --relay-url"));
    assert!(text.contains("#!/bin/sh"));
}

#[test]
fn test_install_script_handler_https_forwarded() {
    let mut headers = HeaderMap::new();
    headers.insert("host", "example.com".parse().unwrap());
    headers.insert("x-forwarded-proto", "https".parse().unwrap());
    let text = install_script_handler(SCRIPT, &headers);
    assert!(text.contains("RELAY_URL=\"https://example.com\""));
}

#[test]
fn test_install_script_handler_default_host() {
    let text = install_script_handler(SCRIPT, &HeaderMap::new());
    assert!(text.contains("RELAY_URL=\"http://localhost\""));
}

#[test]
fn only_https_is_kept_as_a_scheme() {
    assert_eq!(relay_url_for(Some("h"), Some("https")), "https://h");
    assert_eq!(relay_url_for(Some("h"), Some("HTTPS")), "http://h");
    assert_eq!(relay_url_for(Some("h"), Some("ftp")), "http://h");
    assert_eq!(relay_url_for(None, None), "http://localhost");
}

#[test]
fn every_mark_in_a_template_is_filled() {
    assert_eq!(fill_installer("__RELAY_URL__ and ___RELAY_URL__!", "u"), "u and _u!");
    assert_eq!(fill_installer("none", "u"), "none");
    assert_eq!(fill_installer("", "u"), "");
}

#[test]
fn paths_ask_for_assets() {
    assert_eq!(asset_for("/"), "index.html");
    assert_eq!(asset_for(""), "index.html");
    assert_eq!(asset_for("//style.css"), "style.css");
    assert_eq!(asset_for("/a/b.js"), "a/b.js");
    assert_eq!(page_for("session"), "session.html");
}

#[test]
fn assets_have_media_types() {
    let (name, kind) = resolve_asset("style.css", true, true).unwrap();
    assert_eq!(name, "style.css");
    assert_eq!(kind, "text/css");
    let (name, kind) = resolve_asset("session", false, true).unwrap();
    assert_eq!(name, "session.html");
    assert!(kind.starts_with("text/html"));
    let (_, kind) = resolve_asset("blob", true, false).unwrap();
    assert_eq!(kind, "application/octet-stream");
    assert!(resolve_asset("nonexistent", false, false).is_none());
    let (_, kind) = resolve_asset("a/b.txt", true, false).unwrap();
    assert_eq!(kind, "text/plain");
}

#[test]
fn test_install_script_ps1_handler_returns_script() {
    let template = "$RELAY_URL = \"__RELAY_URL__\"\nInvoke-WebRequest $RELAY_URL\nagent --relay-url $RELAY_URL --download-only\n";
    let mut headers = HeaderMap::new();
    headers.insert("host", "example.com:3000".parse().unwrap());
    let text = install_script_ps1_handler(template, &headers);
    assert!(text.contains("$RELAY_URL = \"http://example.com:3000\""));
    assert!(text.contains("agent --relay-url"));
    assert!(text.contains("Invoke-WebRequest"));
    assert!(text.contains("--download-only"));
}

#[test]
fn test_static_handler_root_serves_index() {
    let name = asset_for("/");
    assert_eq!(name, "index.html");
    assert!(resolve_asset(&name, true, false).is_some());
}

#[test]
fn test_static_handler_session_without_extension() {
    let (name, content_type) = resolve_asset(&asset_for("/session"), false, true).unwrap();
    assert_eq!(name, "session.html");
    assert!(
        content_type.starts_with("text/html"),
        "Expected text/html, got {}",
        content_type
    );
}

#[test]
fn test_static_handler_session_js() {
    let (name, _) = resolve_asset(&asset_for("/session.js"), true, false).unwrap();
    assert_eq!(name, "session.js");
}

#[test]
fn test_static_handler_css() {
    let (name, kind) = resolve_asset(&asset_for("/style.css"), true, false).unwrap();
    assert_eq!(name, "style.css");
    assert_eq!(kind, "text/css");
}

#[test]
fn test_static_handler_not_found() {
    assert!(resolve_asset(&asset_for("/nonexistent"), false, false).is_none());
}

#[test]
fn test_static_handler_session_html_direct() {
    let (name, _) = resolve_asset(&asset_for("/session.html"), true, false).unwrap();
    assert_eq!(name, "session.html");
}

// ── configuration ──

fn opt(s: &str) -> Option<String> {
    Some(s.to_string())
}

#[test]
fn a_relay_needs_a_password() {
    assert!(matches!(
        relay_config(None, None, None, None, None),
        Err(ConfigError::MissingAuth)
    ));
    let e = match relay_config(opt(""), opt("/a"), None, None, None) {
        Err(e) => e,
        Ok(_) => panic!("accepted"),
    };
    assert_eq!(e.message(), "Missing required --auth password");
}

#[test]
fn the_admin_panel_needs_a_password() {
    let e = match relay_config(opt("pw"), opt("/secret"), None, opt(""), None) {
        Err(e) => e,
        Ok(_) => panic!("accepted"),
    };
    assert_eq!(e, ConfigError::MissingAdminPass);
    assert_eq!(e.message(), "--admin-path requires --admin-pass");

    let c = match relay_config(opt("pw"), opt("/secret"), opt(""), opt("ap"), opt("/rec")) {
        Ok(c) => c,
        Err(_) => panic!("refused"),
    };
    let admin = c.admin.unwrap();
    assert_eq!(admin.user, "admin");
    assert_eq!(admin.pass, "ap");
    assert_eq!(admin.path, "/secret");
    assert_eq!(c.record_dir, opt("/rec"));
    assert_eq!(c.auth, "pw");

    let c = match relay_config(opt("pw"), None, opt("u"), opt("p"), opt("")) {
        Ok(c) => c,
        Err(_) => panic!("refused"),
    };
    assert!(c.admin.is_none());
    assert_eq!(c.record_dir, None);
}

#[test]
fn the_admin_path_begins_with_a_slash() {
    assert_eq!(admin_prefix("/a"), "/a");
    assert_eq!(admin_prefix("a"), "/a");
    assert_eq!(admin_prefix(""), "/");
}

// ── idle sessions ──

#[test]
fn idle_temporary_sessions_are_removed() {
    let sec = 1_000_000_000u128;
    let mut s = SharedState::new(
        String::new(),
        1,
        None,
        String::new(),
        String::new(),
        Some(Recorder::new("d".to_string())),
    );
    let (temp, tokens) = s.sessions.register(None, "rw", None).unwrap();
    let (fixed, _t) = s.sessions.register(opt("key"), "rw", None).unwrap();
    let (busy, _t) = s.sessions.register(None, "rw", None).unwrap();
    for sid in [&temp, &fixed, &busy] {
        s.agent_broadcast.insert(sid.to_string(), ChannelMap::new());
    }
    s.touch(&temp, 0);
    s.touch(&fixed, 0);
    s.touch(&busy, 2 * sec);
    s.pending_mcp.insert("r1".to_string(), temp.clone());
    s.pending_mcp.insert("r2".to_string(), busy.clone());
    s.buffer_agent_event(&temp, "x");
    s.recorder
        .as_mut()
        .unwrap()
        .record(&temp, RecordEvent::Output("x".to_string()));

    // Exactly at the limit nothing is idle yet.
    sweep_idle_at(&mut s, 1800 * sec);
    assert_eq!(s.sessions.count(), 3);

    sweep_idle_at(&mut s, 1800 * sec + 1);
    assert_eq!(s.sessions.count(), 2);
    assert!(s.sessions.authenticate(&tokens[0].0).is_none());
    assert!(!s.agent_broadcast.contains_key(&temp));
    assert!(s.agent_broadcast.contains_key(&fixed));
    assert!(!s.pending_mcp.contains_key("r1"));
    assert!(s.pending_mcp.contains_key("r2"));
    assert_eq!(s.last_event_id(&temp), 0);
    assert!(!s.last_activity.contains_key(&temp));
    assert!(!s.recorder.as_ref().unwrap().is_recording(&temp));
    assert!(s.sessions.authenticate("key").is_some());
}

#[test]
fn a_session_with_a_fixed_key_is_not_reaped() {
    let mut s = state();
    let (sid, _t) = s.sessions.register(opt("key"), "rw", None).unwrap();
    reap(&mut s, &sid);
    assert_eq!(s.sessions.authenticate("key").unwrap().1, Permission::ReadWrite);
    sweep_idle(&mut s);
    assert_eq!(s.sessions.count(), 1);
}
