use shell_remote::json::Json;
use shell_remote::proto::{
    is_valid_custom_session_id, requires_write, ErrorPayload, ExecClosePayload, ExecInputPayload,
    ExecListPayload, ExecResultPayload, ExecSessionInfo, ExecStartPayload, FileEntry,
    FsResultPayload, McpExecPayload, McpResultPayload, Message, Permission, TerminalInputPayload,
    TerminalOutputPayload, TerminalResizePayload, TokenType, UserInfo,
};

#[test]
fn test_message_roundtrip() {
    let msg = Message {
        msg_type: "terminal:input".to_string(),
        session_id: "abc-123".to_string(),
        payload: Json::object().with_str("data", "aGVsbG8="),
    };
    let decoded = Message::from_json(&msg.to_json()).unwrap();
    assert_eq!(decoded.msg_type, "terminal:input");
    assert_eq!(decoded.session_id, "abc-123");
    assert_eq!(decoded.payload.str_field("data").unwrap(), "aGVsbG8=");
}

#[test]
fn test_terminal_output_roundtrip() {
    let output = TerminalOutputPayload {
        data: "SGVsbG8gV29ybGQ=".to_string(),
        tab_id: Some("tab-1".to_string()),
    };
    let msg = Message {
        msg_type: "terminal:output".to_string(),
        session_id: "session-1".to_string(),
        payload: output.to_json(),
    };
    let decoded = Message::from_json(&msg.to_json()).unwrap();
    let decoded_output = TerminalOutputPayload::from_json(&decoded.payload).unwrap();
    assert_eq!(decoded_output.data, "SGVsbG8gV29ybGQ=");
    assert_eq!(decoded_output, output);
}

#[test]
fn test_fs_result_roundtrip() {
    let entry = FileEntry {
        name: "test.txt".to_string(),
        path: "/home/user/test.txt".to_string(),
        entry_type: "file".to_string(),
        size: 1024,
        mode: "-rw-r--r--".to_string(),
        owner: "1000:1000".to_string(),
    };
    let result = FsResultPayload {
        success: true,
        error: None,
        entries: Some(vec![entry]),
        content: None,
        path: None,
        new_path: None,
    };
    let msg = Message {
        msg_type: "fs:result".to_string(),
        session_id: "session-1".to_string(),
        payload: result.to_json(),
    };
    let decoded = Message::from_json(&msg.to_json()).unwrap();
    let decoded_result = FsResultPayload::from_json(&decoded.payload).unwrap();
    assert!(decoded_result.success);
    assert_eq!(decoded_result.entries.as_ref().unwrap().len(), 1);
    assert_eq!(decoded_result, result);
}

#[test]
fn test_requires_write() {
    assert!(requires_write("terminal:input"));
    assert!(requires_write("fs:write"));
    assert!(requires_write("fs:delete"));
    assert!(!requires_write("terminal:output"));
    assert!(requires_write("session:join"));
    assert!(!requires_write("fs:list"));
    assert!(!requires_write("fs:read"));
    assert!(!requires_write("session:users"));
    assert!(!requires_write("mcp:result"));
    assert!(requires_write("unknown:whatever"));
}

#[test]
fn test_error_payload_roundtrip() {
    let err = ErrorPayload {
        code: "AUTH_INVALID_TOKEN".to_string(),
        message: "Invalid token".to_string(),
    };
    let msg = Message {
        msg_type: "error".to_string(),
        session_id: "session-1".to_string(),
        payload: err.to_json(),
    };
    let decoded = Message::from_json(&msg.to_json()).unwrap();
    let decoded_err = ErrorPayload::from_json(&decoded.payload).unwrap();
    assert_eq!(decoded_err.code, "AUTH_INVALID_TOKEN");
}

#[test]
fn test_mcp_exec_roundtrip() {
    let exec = McpExecPayload {
        cmd: "ls -la".to_string(),
        timeout_ms: Some(5000),
    };
    let decoded = McpExecPayload::from_json(&exec.to_json()).unwrap();
    assert_eq!(decoded.cmd, "ls -la");
    assert_eq!(decoded.timeout_ms, Some(5000));
}

#[test]
fn test_mcp_result_roundtrip() {
    let result = McpResultPayload {
        stdout: "file.txt".to_string(),
        stderr: String::new(),
        exit_code: 0,
    };
    let decoded = McpResultPayload::from_json(&result.to_json()).unwrap();
    assert_eq!(decoded.stdout, "file.txt");
    assert_eq!(decoded.exit_code, 0);
}

#[test]
fn test_exec_start_roundtrip() {
    let payload = ExecStartPayload {
        cmd: "sudo apt update".to_string(),
        _mcp_request_id: Some("req-1".to_string()),
    };
    let decoded = ExecStartPayload::from_json(&payload.to_json()).unwrap();
    assert_eq!(decoded.cmd, "sudo apt update");
    assert_eq!(decoded._mcp_request_id, Some("req-1".to_string()));
}

#[test]
fn test_exec_result_roundtrip() {
    let payload = ExecResultPayload {
        exec_id: "abc123".to_string(),
        stdout: "output".to_string(),
        stderr: String::new(),
        status: "running".to_string(),
        exit_code: None,
        error: None,
        _mcp_request_id: None,
    };
    let decoded = ExecResultPayload::from_json(&payload.to_json()).unwrap();
    assert_eq!(decoded.exec_id, "abc123");
    assert_eq!(decoded.status, "running");
    assert_eq!(decoded.exit_code, None);
}

#[test]
fn test_exec_result_exited_roundtrip() {
    let payload = ExecResultPayload {
        exec_id: "abc123".to_string(),
        stdout: "done\n".to_string(),
        stderr: String::new(),
        status: "exited".to_string(),
        exit_code: Some(0),
        error: None,
        _mcp_request_id: None,
    };
    let decoded = ExecResultPayload::from_json(&payload.to_json()).unwrap();
    assert_eq!(decoded.status, "exited");
    assert_eq!(decoded.exit_code, Some(0));
}

#[test]
fn test_exec_session_info_roundtrip() {
    let info = ExecSessionInfo {
        exec_id: "abc123".to_string(),
        cmd: "sleep 10".to_string(),
        status: "running".to_string(),
        started_at: 1718300000,
    };
    let decoded = ExecSessionInfo::from_json(&info.to_json()).unwrap();
    assert_eq!(decoded.exec_id, "abc123");
    assert_eq!(decoded.cmd, "sleep 10");
    assert_eq!(decoded.status, "running");
}

#[test]
fn test_exec_start_cmd_only() {
    let payload = ExecStartPayload {
        cmd: "ls".to_string(),
        _mcp_request_id: None,
    };
    let doc = payload.to_json();
    assert!(doc.get("_mcp_request_id").is_none());
    let decoded = ExecStartPayload::from_json(&doc).unwrap();
    assert_eq!(decoded.cmd, "ls");
}

#[test]
fn making_a_directory_needs_write() {
    assert!(requires_write("fs:mkdir"));
    assert!(requires_write("fs:upload"));
    assert!(requires_write("mcp:exec"));
    assert!(requires_write(""));
    assert!(!requires_write("mcp:exec_list"));
    assert!(!requires_write("session:tab_list"));
}

#[test]
fn custom_ids_are_five_to_twenty_letters_and_digits() {
    assert!(is_valid_custom_session_id("dev01"));
    assert!(is_valid_custom_session_id("ABCdef0123456789wxyz"));
    assert!(!is_valid_custom_session_id("dev1"));
    assert!(!is_valid_custom_session_id("ABCdef0123456789wxyz0"));
    assert!(!is_valid_custom_session_id("dev 01"));
    assert!(!is_valid_custom_session_id("d\u{e9}v01"));
    assert!(!is_valid_custom_session_id(""));
}

#[test]
fn token_types_have_names() {
    for (t, name) in [
        (TokenType::Rw, "rw"),
        (TokenType::Ro, "ro"),
        (TokenType::Both, "both"),
    ] {
        assert_eq!(t.as_str(), name);
        assert_eq!(TokenType::from_str_val(name), Some(t));
    }
    assert_eq!(TokenType::from_str_val("RW"), None);
}

#[test]
fn a_document_without_a_payload_is_no_message() {
    let doc = Json::object().with_str("type", "x").with_str("session_id", "s");
    assert!(Message::from_json(&doc).is_none());
    let doc = doc.with("payload", Json::Null);
    assert!(Message::from_json(&doc).is_some());
    assert!(Message::from_json(&Json::Null).is_none());
}

#[test]
fn payloads_reject_what_does_not_fit() {
    let doc = Json::object().with_str("cmd", "ls").with("timeout_ms", Json::Int(-1));
    assert!(McpExecPayload::from_json(&doc).is_none());
    let doc = Json::object().with_str("cmd", "ls").with("timeout_ms", Json::Null);
    assert_eq!(McpExecPayload::from_json(&doc).unwrap().timeout_ms, None);
    let doc = Json::object()
        .with_str("stdout", "")
        .with_str("stderr", "")
        .with("exit_code", Json::Int(2147483648));
    assert!(McpResultPayload::from_json(&doc).is_none());
    let doc = Json::object()
        .with("success", Json::Bool(true))
        .with("entries", Json::Arr(vec![Json::Int(1)]));
    assert!(FsResultPayload::from_json(&doc).is_none());
}

#[test]
fn a_field_named_twice_has_its_last_value() {
    let doc = Json::Obj(vec![
        ("a".to_string(), Json::Int(1)),
        ("a".to_string(), Json::Int(2)),
    ]);
    assert_eq!(doc.u64_field("a"), Some(2));
    assert_eq!(doc.copy(), doc);
}

#[test]
fn requests_are_read_back() {
    for tab_id in [None, Some("t1".to_string())] {
        let p = TerminalInputPayload { data: "bHM=".to_string(), tab_id: tab_id.clone() };
        assert_eq!(p.to_json().get("tab_id").is_some(), tab_id.is_some());
        assert_eq!(TerminalInputPayload::from_json(&p.to_json()), Some(p));
        let p = TerminalResizePayload { cols: 80, rows: u16::MAX, tab_id };
        assert_eq!(p.to_json().u64_field("rows"), Some(65535));
        assert_eq!(TerminalResizePayload::from_json(&p.to_json()), Some(p));
    }
    for id in [None, Some("r1".to_string())] {
        let p = ExecInputPayload {
            exec_id: "e".to_string(),
            data_b64: "eA==".to_string(),
            _mcp_request_id: id.clone(),
        };
        assert_eq!(ExecInputPayload::from_json(&p.to_json()), Some(p));
        let p = ExecClosePayload { exec_id: "e".to_string(), _mcp_request_id: id.clone() };
        assert_eq!(ExecClosePayload::from_json(&p.to_json()), Some(p));
        let p = ExecListPayload { _mcp_request_id: id };
        assert_eq!(ExecListPayload::from_json(&p.to_json()), Some(p));
    }
    let size = Json::object().with("cols", Json::Int(65536)).with("rows", Json::Int(1));
    assert_eq!(TerminalResizePayload::from_json(&size), None);
    let size = Json::object().with("cols", Json::Int(-1)).with("rows", Json::Int(1));
    assert_eq!(TerminalResizePayload::from_json(&size), None);
    assert_eq!(ExecListPayload::from_json(&Json::Null), None);
    assert_eq!(ExecInputPayload::from_json(&Json::object().with_str("exec_id", "e")), None);
}

#[test]
fn a_permission_has_a_name_on_the_wire() {
    for (permission, name) in
        [(Permission::ReadWrite, "readwrite"), (Permission::ReadOnly, "readonly")]
    {
        let user = UserInfo { user_id: "u".to_string(), permission };
        let doc = user.to_json();
        assert_eq!(doc.str_field("permission"), Some(name));
        assert_eq!(UserInfo::from_json(&doc), Some(user));
        let null = Json::object().with(name, Json::Null);
        let doc = Json::object().with_str("user_id", "u").with("permission", null.copy());
        assert_eq!(UserInfo::from_json(&doc).unwrap().permission, permission);
        let doc = Json::object()
            .with_str("user_id", "u")
            .with("permission", null.with("other", Json::Null));
        assert_eq!(UserInfo::from_json(&doc), None);
        let one = Json::object().with(name, Json::Int(1));
        let doc = Json::object().with_str("user_id", "u").with("permission", one);
        assert_eq!(UserInfo::from_json(&doc), None);
    }
    let doc = Json::object().with_str("user_id", "u").with_str("permission", "rw");
    assert_eq!(UserInfo::from_json(&doc), None);
    let doc = Json::object().with_str("user_id", "u").with("permission", Json::object());
    assert_eq!(UserInfo::from_json(&doc), None);
}

fn texts(items: &[&str]) -> Vec<Json> {
    items.iter().map(|t| Json::text(t)).collect()
}

#[test]
fn a_message_is_read_from_the_list_of_its_fields() {
    let mut items = texts(&["fs:list", "s"]);
    assert_eq!(Message::from_json(&Json::Arr(texts(&["fs:list", "s"]))), None);
    items.push(Json::object().with_str("path", "/"));
    let m = Message::from_json(&Json::Arr(items)).unwrap();
    assert_eq!(m, Message::new("fs:list", "s", Json::object().with_str("path", "/")));
    assert_eq!(Message::from_json(&Json::Arr(texts(&["a", "b", "c", "d"]))), None);
    let wrong = vec![Json::text("fs:list"), Json::Int(1), Json::Null];
    assert_eq!(Message::from_json(&Json::Arr(wrong)), None);
}

#[test]
fn payloads_are_read_from_the_list_of_their_fields() {
    let output = TerminalOutputPayload { data: "aGk=".to_string(), tab_id: None };
    let list = Json::Arr(vec![Json::text("aGk="), Json::Null]);
    assert_eq!(TerminalOutputPayload::from_json(&list), Some(output));
    assert_eq!(TerminalOutputPayload::from_json(&Json::Arr(texts(&["aGk="]))), None);
    let input = TerminalInputPayload { data: "a".to_string(), tab_id: Some("t".to_string()) };
    assert_eq!(TerminalInputPayload::from_json(&Json::Arr(texts(&["a", "t"]))), Some(input));
    let size = TerminalResizePayload { cols: 3, rows: 4, tab_id: None };
    let list = Json::Arr(vec![Json::Int(3), Json::Int(4), Json::Null]);
    assert_eq!(TerminalResizePayload::from_json(&list), Some(size));

    let entry = vec![
        Json::text("n"),
        Json::text("/n"),
        Json::text("file"),
        Json::Int(7),
        Json::text("-rw-r--r--"),
        Json::text("0:0"),
    ];
    let list = Json::Arr(vec![
        Json::Bool(true),
        Json::Null,
        Json::Arr(vec![Json::Arr(entry)]),
        Json::Null,
        Json::text("/"),
        Json::Null,
    ]);
    let result = FsResultPayload::from_json(&list).unwrap();
    assert_eq!(result.path, Some("/".to_string()));
    let entries = result.entries.unwrap();
    assert_eq!((entries[0].name.as_str(), entries[0].size), ("n", 7));

    let cmd = McpExecPayload { cmd: "ls".to_string(), timeout_ms: Some(5) };
    let list = Json::Arr(vec![Json::text("ls"), Json::Int(5)]);
    assert_eq!(McpExecPayload::from_json(&list), Some(cmd));
    let list = Json::Arr(vec![Json::text("o"), Json::text("e"), Json::Int(-1)]);
    assert_eq!(McpResultPayload::from_json(&list).unwrap().exit_code, -1);
    let list = Json::Arr(vec![Json::text("ls"), Json::Null]);
    let start = ExecStartPayload { cmd: "ls".to_string(), _mcp_request_id: None };
    assert_eq!(ExecStartPayload::from_json(&list), Some(start));
    let list = Json::Arr(texts(&["e", "eA==", "r"]));
    assert_eq!(ExecInputPayload::from_json(&list).unwrap().data_b64, "eA==");
    let list = Json::Arr(texts(&["e", "r"]));
    assert_eq!(ExecClosePayload::from_json(&list).unwrap().exec_id, "e");
    let list = Json::Arr(texts(&["r"]));
    let request = ExecListPayload { _mcp_request_id: Some("r".to_string()) };
    assert_eq!(ExecListPayload::from_json(&list), Some(request));
    assert_eq!(ExecListPayload::from_json(&Json::Arr(Vec::new())), None);
    let mut items = texts(&["e", "o", "x", "exited"]);
    items.push(Json::Int(3));
    items.push(Json::Null);
    items.push(Json::Null);
    assert_eq!(ExecResultPayload::from_json(&Json::Arr(items)).unwrap().exit_code, Some(3));
    let mut items = texts(&["e", "ls", "running"]);
    items.push(Json::Int(9));
    assert_eq!(ExecSessionInfo::from_json(&Json::Arr(items)).unwrap().started_at, 9);
    let user = UserInfo { user_id: "u".to_string(), permission: Permission::ReadOnly };
    assert_eq!(UserInfo::from_json(&Json::Arr(texts(&["u", "readonly"]))), Some(user));
    let error = ErrorPayload { code: "c".to_string(), message: "m".to_string() };
    assert_eq!(ErrorPayload::from_json(&Json::Arr(texts(&["c", "m"]))), Some(error));
}
