use shell_remote::agent::command::{
    command_result, unix_command, windows_command, CommandOutcome,
};
use shell_remote::agent::exec_sessions::{
    input_failed, keep_tail, list_result, spawn_failed, ExecSessionManager,
    ExecStatus, MAX_OUTPUT_BUF,
};
use shell_remote::agent::fs::decode_b64;
use shell_remote::proto::ExecSessionInfo;

const SEC: u128 = 1_000_000_000;

fn spawn(mgr: &mut ExecSessionManager, cmd: &str) -> String {
    let id = mgr.spawn().unwrap();
    let now = mgr.now();
    let r = mgr.spawned(&id, cmd, now);
    assert_eq!(r.exec_id, id);
    id
}

fn text_of(stdout: &str) -> String {
    String::from_utf8(decode_b64(stdout).unwrap()).unwrap()
}

#[test]
fn test_spawn_simple_command() {
    let mut mgr = ExecSessionManager::new();
    let id = mgr.spawn().unwrap();
    let result = mgr.spawned(&id, "echo hello", 0);
    assert!(!result.exec_id.is_empty());
    assert_eq!(result.status, "running");
}

#[test]
fn test_spawn_max_limit() {
    let mut mgr = ExecSessionManager::new();
    let mut ids = Vec::new();
    for _ in 0..8 {
        ids.push(spawn(&mut mgr, "sleep 10"));
    }
    let result = mgr.spawn();
    assert!(result.is_err());
    assert!(result.unwrap_err().error.unwrap().contains("Max concurrent"));
    assert_eq!(mgr.running_count(), 8);
    for id in ids {
        let _ = mgr.close(&id);
    }
    assert!(mgr.spawn().is_ok());
}

#[test]
fn exec_sessions_test_list_sessions() {
    let mut mgr = ExecSessionManager::new();
    let r1 = spawn(&mut mgr, "sleep 60");
    let r2 = spawn(&mut mgr, "sleep 60");

    let list = mgr.list();
    let items = list.as_arr().unwrap();
    assert_eq!(items.len(), 2);
    let info = ExecSessionInfo::from_json(&items[0]).unwrap();
    assert_eq!(info.exec_id, r1);
    assert_eq!(info.cmd, "sleep 60");
    assert_eq!(info.status, "running");

    let reply = list_result("[]");
    assert_eq!(reply.status, "ok");
    assert_eq!(text_of(&reply.stdout), "[]");

    let _ = mgr.close(&r1);
    let _ = mgr.close(&r2);
    assert!(mgr.list().as_arr().unwrap().is_empty());
}

#[test]
fn test_close_session() {
    let mut mgr = ExecSessionManager::new();
    let exec_id = spawn(&mut mgr, "sleep 60");
    let close_result = mgr.close(&exec_id).unwrap();
    assert_eq!(close_result.exec_id, exec_id);
    assert!(close_result.status == "killed" || close_result.status == "exited");
    assert_eq!(close_result.exit_code, Some(-1));

    let close2 = mgr.close(&exec_id);
    assert!(close2.is_err());
}

#[test]
fn test_shutdown_all() {
    let mut mgr = ExecSessionManager::new();
    spawn(&mut mgr, "sleep 60");
    spawn(&mut mgr, "sleep 60");
    mgr.shutdown_all();
    assert!(mgr.list().as_arr().unwrap().is_empty());
    assert!(mgr.ids().is_empty());
}

#[test]
fn test_write_stdin_to_running() {
    let mut mgr = ExecSessionManager::new();
    let id = spawn(&mut mgr, "cat");
    assert!(mgr.write_stdin(&id).is_ok());
    let now = mgr.now();
    mgr.touched(&id, now);
    let result = mgr.stdin_written(&id);
    assert_eq!(result.status, "running");
    mgr.wrote(&id, b"hello\n", now);
    let close = mgr.close(&id).unwrap();
    assert!(text_of(&close.stdout).contains("hello"));
}

#[test]
fn test_write_stdin_to_nonexistent() {
    let mgr = ExecSessionManager::new();
    let result = mgr.write_stdin("nonexistent");
    assert!(result.is_err());
    assert!(result.unwrap_err().error.unwrap().contains("not found"));
}

#[test]
fn test_write_stdin_to_exited() {
    let mut mgr = ExecSessionManager::new();
    let id = spawn(&mut mgr, "true");
    mgr.ended(&id, Some(Some(0)));
    let result = mgr.write_stdin(&id);
    assert!(result.is_err());
    let err = result.unwrap_err();
    assert!(err.status == "exited" || err.status == "killed");
    assert_eq!(err.error, Some("Process has exited (code: 0)".to_string()));
}

#[test]
fn test_close_nonexistent_session() {
    let mut mgr = ExecSessionManager::new();
    let result = mgr.close("nonexistent");
    assert!(result.is_err());
    assert!(result.unwrap_err().error.unwrap().contains("not found"));
}

#[test]
fn test_close_already_exited() {
    let mut mgr = ExecSessionManager::new();
    let id = spawn(&mut mgr, "true");
    mgr.ended(&id, Some(Some(0)));
    let result = mgr.close(&id).unwrap();
    assert_eq!(result.status, "exited");
    assert_eq!(result.exit_code, Some(0));
}

#[test]
fn test_spawn_invalid_command() {
    let mut mgr = ExecSessionManager::new();
    let id = spawn(&mut mgr, "nonexistent_command_xyz_123");
    mgr.ended(&id, Some(Some(127)));
    let close = mgr.close(&id).unwrap();
    assert!(close.status == "exited" || close.status == "killed");
}

#[test]
fn a_command_that_is_idle_too_long_times_out() {
    let mut mgr = ExecSessionManager::new();
    let id = mgr.spawn().unwrap();
    mgr.spawned(&id, "sleep 999", 10);
    assert!(!mgr.expire(&id, 300 * SEC + 10));
    assert!(mgr.expire(&id, 300 * SEC + 11));
    assert!(!mgr.expire("nobody", u128::MAX));
    // What has ended stays so.
    mgr.ended(&id, Some(Some(0)));
    assert_eq!(mgr.get(&id).unwrap().status, ExecStatus::Timeout);
    let err = mgr.write_stdin(&id).unwrap_err();
    assert_eq!(err.status, "timeout");
    assert_eq!(err.error, Some("Session timed out".to_string()));
    assert_eq!(err.exit_code, Some(-1));
}

#[test]
fn an_ended_command_is_forgotten_when_another_starts() {
    let mut mgr = ExecSessionManager::new();
    let a = spawn(&mut mgr, "a");
    let b = spawn(&mut mgr, "b");
    mgr.ended(&a, None);
    assert_eq!(mgr.get(&a).unwrap().status, ExecStatus::Killed);
    let c = spawn(&mut mgr, "c");
    assert!(mgr.get(&a).is_none());
    assert_eq!(mgr.ids(), vec![b, c]);
}

#[test]
fn only_the_end_of_the_output_is_kept() {
    let mut mgr = ExecSessionManager::new();
    let id = spawn(&mut mgr, "yes");
    let mut data = vec![b'a'; MAX_OUTPUT_BUF];
    data[0] = b'x';
    mgr.wrote(&id, &data, 1);
    mgr.wrote(&id, b"bc", 2);
    let s = mgr.get(&id).unwrap();
    assert_eq!(s.output_buf.len(), MAX_OUTPUT_BUF);
    assert!(s.output_buf.ends_with("abc"));
    assert!(s.output_buf.starts_with('a'));
    assert_eq!(s.last_activity, 2);
    mgr.wrote("nobody", b"x", 3);
}

#[test]
fn output_is_not_cut_within_a_character() {
    assert_eq!(keep_tail("héllo".to_string(), 3), "llo");
    assert_eq!(keep_tail("héllo".to_string(), 5), "éllo");
    assert_eq!(keep_tail("héllo".to_string(), 4), "llo");
    assert_eq!(keep_tail("héllo".to_string(), 6), "héllo");
    assert_eq!(keep_tail("é".to_string(), 1), "");
    assert_eq!(keep_tail("a\u{1f600}b".to_string(), 4), "b");
    assert_eq!(keep_tail("a\u{1f600}b".to_string(), 5), "\u{1f600}b");
    let mut mgr = ExecSessionManager::new();
    let id = spawn(&mut mgr, "yes");
    let mut data = "é".as_bytes().to_vec();
    data.extend(vec![b'a'; MAX_OUTPUT_BUF - 1]);
    mgr.wrote(&id, &data, 1);
    let kept = &mgr.get(&id).unwrap().output_buf;
    assert_eq!(kept.len(), MAX_OUTPUT_BUF - 1);
    assert!(kept.starts_with('a'));
}

#[test]
fn starts_are_listed_by_the_wall_clock() {
    let mut mgr = ExecSessionManager::new();
    let id = mgr.spawn().unwrap();
    mgr.spawned(&id, "x", 3 * SEC);
    mgr.ended(&id, Some(Some(-2)));
    let list = mgr.list_at(13 * SEC + 999_999_999, 1000);
    let item = &list.as_arr().unwrap()[0];
    assert_eq!(item.u64_field("started_at"), Some(990));
    assert_eq!(item.str_field("status"), Some("exited(-2)"));
    let list = mgr.list_at(13 * SEC, 5);
    assert_eq!(list.as_arr().unwrap()[0].u64_field("started_at"), Some(0));
}

#[test]
fn failures_are_told() {
    let r = spawn_failed("e1", "no memory");
    assert_eq!(r.status, "error");
    assert_eq!(r.stderr, "Failed to spawn: no memory");
    assert_eq!(r.error, Some("Failed to spawn process: no memory".to_string()));
    let r = input_failed("e1");
    assert_eq!(r.error, Some("Failed to send input: process may have exited".to_string()));
    assert_eq!(r.exec_id, "e1");
}

// ── commands that run to their end ──

#[test]
fn commands_run_in_a_shell() {
    assert_eq!(unix_command("ls -l", false), vec!["sh", "-c", "ls -l"]);
    assert_eq!(
        unix_command("ls -l", true),
        vec!["script", "-q", "-c", "ls -l", "/dev/null"]
    );
    assert_eq!(windows_command("dir", "cmd.exe"), vec!["cmd.exe", "/c", "dir"]);
    assert_eq!(
        windows_command("dir", "C:\\PowerShell.exe"),
        vec!["C:\\PowerShell.exe", "-NoProfile", "-Command", "dir"]
    );
    assert_eq!(
        windows_command("dir", "PWSH"),
        vec!["PWSH", "-NoProfile", "-Command", "dir"]
    );
    assert_eq!(windows_command("dir", ""), vec!["cmd.exe", "/c", "dir"]);
}

#[test]
fn results_of_commands_are_told() {
    let r = command_result(
        &CommandOutcome::Ended {
            stdout: b"ok\xff".to_vec(),
            stderr: b"e".to_vec(),
            code: Some(3),
        },
        1,
    );
    assert_eq!(r.stdout, "ok\u{fffd}");
    assert_eq!(r.stderr, "e");
    assert_eq!(r.exit_code, 3);
    let r = command_result(
        &CommandOutcome::Ended { stdout: Vec::new(), stderr: Vec::new(), code: None },
        1,
    );
    assert_eq!(r.exit_code, -1);
    let r = command_result(&CommandOutcome::NotStarted("gone".to_string()), 1);
    assert_eq!(r.stderr, "Failed to execute command: gone");
    let r = command_result(&CommandOutcome::TimedOut, 30_999);
    assert_eq!(r.stderr, "Command timed out after 30s");
    assert_eq!(r.exit_code, -1);
}
