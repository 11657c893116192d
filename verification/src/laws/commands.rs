//! Remote commands: how a caller's command reaches an agent, and what the caller is told.
use vstd::prelude::*;
use vstd::utf8::*;

use crate::agent::command::{command_told, unix_program, windows_program, CommandOutcome};
use crate::agent::exec_sessions::{
    closed, ended, exec_error, exec_list, exec_report, idle_too_long, input_gate, input_lost,
    list_reply, listed_exec, not_found, on_ask, on_close, on_end, on_input, on_output,
    on_started, on_tick, running, spawn_error, started, state_reply, too_many, without_ended,
    wrote, ExecStatus, Execs, InnerView,
};
use crate::agent::session::{command_reply, exec_reply, AgentActionView, AgentView};
use crate::json::JsonView;
use crate::laws::browsers::doc_of;
use crate::laws::connection::says_text;
use crate::laws::files::given;
use crate::outside::{base64_bytes, base64_text};
use crate::payload::{ExecResultView, McpResultView};
use crate::proto::{MessageView, Permission};
use crate::relay::auth::utf8_text;
use crate::relay::mcp::{
    mcp_begin, mcp_end, mcp_open, mcp_post, McpPostView, McpStepView, McpStreamView,
};
use crate::relay::queue::delivered;
use crate::relay::state::{BodyView, RelayView};
use crate::relay::ws::counted;
use crate::text::{decimal, decimal_int, trimmed};

verus! {

// ---- what the agent is asked ----
/// Each command message is the action of its own name, with the command, the id and the bytes that
/// it carries, for the request that it names. A command that sets no time runs at most thirty
/// seconds.
pub proof fn command_message_is_its_action(v: AgentView, m: MessageView, fresh: Seq<char>)
    requires
        !v.read_only || m.msg_type == "mcp:exec_list"@,
    ensures
        ({
            let p = m.payload;
            let id = p.str_field("_mcp_request_id"@);
            let (w, actions) = v.handle(m, fresh);
            &&& m.msg_type == "mcp:exec"@ ==> w == v && actions == seq![
                AgentActionView::Exec {
                    cmd: given(p, "cmd"@, ""@),
                    timeout_ms: match p.u64_field("timeout_ms"@) {
                        Some(n) => n,
                        None => 30000,
                    },
                    request_id: id,
                },
            ]
            &&& m.msg_type == "mcp:exec_start"@ ==> w == v && actions == seq![
                AgentActionView::ExecStart { cmd: given(p, "cmd"@, ""@), request_id: id },
            ]
            &&& m.msg_type == "mcp:exec_close"@ ==> w == v && actions == seq![
                AgentActionView::ExecClose {
                    exec_id: given(p, "exec_id"@, ""@),
                    request_id: id,
                },
            ]
            &&& m.msg_type == "mcp:exec_list"@ ==> w == v && actions == seq![
                AgentActionView::ExecList { request_id: id },
            ]
            &&& m.msg_type == "mcp:exec_input"@ ==> w == v && actions.len() == 1 && {
                &&& actions[0] matches AgentActionView::ExecInput { exec_id, data, request_id } && {
                    &&& exec_id == given(p, "exec_id"@, ""@)
                    &&& request_id == id
                    &&& base64_bytes(given(p, "data_b64"@, ""@)) matches Some(b) ==> data == b
                    &&& base64_bytes(given(p, "data_b64"@, ""@)) is None ==> data.len() == 0
                }
            }
        }),
{
    reveal_strlit("fs:list");
    reveal_strlit("fs:read");
    reveal_strlit("fs:write");
    reveal_strlit("fs:upload");
    reveal_strlit("fs:delete");
    reveal_strlit("fs:rename");
    reveal_strlit("fs:mkdir");
    assert("fs:list"@[3] != "fs:read"@[3]);
    assert("fs:list"@.len() != "fs:write"@.len());
    assert("fs:list"@.len() != "fs:upload"@.len());
    assert("fs:list"@.len() != "fs:delete"@.len());
    assert("fs:list"@.len() != "fs:rename"@.len());
    assert("fs:list"@.len() != "fs:mkdir"@.len());
    assert("fs:read"@.len() != "fs:write"@.len());
    assert("fs:read"@.len() != "fs:upload"@.len());
    assert("fs:read"@.len() != "fs:delete"@.len());
    assert("fs:read"@.len() != "fs:rename"@.len());
    assert("fs:read"@.len() != "fs:mkdir"@.len());
    assert("fs:write"@.len() != "fs:upload"@.len());
    assert("fs:write"@.len() != "fs:delete"@.len());
    assert("fs:write"@.len() != "fs:rename"@.len());
    assert("fs:write"@[3] != "fs:mkdir"@[3]);
    assert("fs:upload"@[3] != "fs:delete"@[3]);
    assert("fs:upload"@[3] != "fs:rename"@[3]);
    assert("fs:upload"@.len() != "fs:mkdir"@.len());
    assert("fs:delete"@[3] != "fs:rename"@[3]);
    assert("fs:delete"@.len() != "fs:mkdir"@.len());
    assert("fs:rename"@.len() != "fs:mkdir"@.len());
    reveal_strlit("mcp:exec");
    reveal_strlit("mcp:exec_start");
    reveal_strlit("mcp:exec_input");
    reveal_strlit("mcp:exec_close");
    reveal_strlit("mcp:exec_list");
    assert("mcp:exec"@.len() != "mcp:exec_start"@.len());
    assert("mcp:exec"@.len() != "mcp:exec_input"@.len());
    assert("mcp:exec"@.len() != "mcp:exec_close"@.len());
    assert("mcp:exec"@.len() != "mcp:exec_list"@.len());
    assert("mcp:exec_start"@[9] != "mcp:exec_input"@[9]);
    assert("mcp:exec_start"@[9] != "mcp:exec_close"@[9]);
    assert("mcp:exec_start"@.len() != "mcp:exec_list"@.len());
    assert("mcp:exec_input"@[9] != "mcp:exec_close"@[9]);
    assert("mcp:exec_input"@.len() != "mcp:exec_list"@.len());
    assert("mcp:exec_close"@.len() != "mcp:exec_list"@.len());
    assert("mcp:exec"@[0] == 'm' && "mcp:exec_start"@[0] == 'm' && "mcp:exec_input"@[0] == 'm'
        && "mcp:exec_close"@[0] == 'm' && "mcp:exec_list"@[0] == 'm');
    assert("fs:list"@[0] == 'f' && "fs:read"@[0] == 'f' && "fs:write"@[0] == 'f'
        && "fs:upload"@[0] == 'f' && "fs:delete"@[0] == 'f' && "fs:rename"@[0] == 'f'
        && "fs:mkdir"@[0] == 'f');
}

/// How a command is run: by `script`, for a terminal of its own, where it is at hand, and else by
/// `sh`; on Windows by the PowerShell that the agent's shell is, and else by `cmd.exe`. The command
/// itself is one argument, as it was given.
pub proof fn command_is_run_as_given(cmd: Seq<char>, shell: Seq<char>, pre: Seq<char>, post: Seq<char>)
    ensures
        unix_program(cmd, true) == seq!["script"@, "-q"@, "-c"@, cmd, "/dev/null"@],
        unix_program(cmd, false) == seq!["sh"@, "-c"@, cmd],
        shell == pre + "powershell"@ + post || shell == pre + "pwsh"@ + post ==> windows_program(
            cmd,
            shell,
        ) == seq![shell, "-NoProfile"@, "-Command"@, cmd],
        (forall|i: int| 0 <= i < shell.len() ==> #[trigger] shell[i] != 'p' && shell[i] != 'P')
            ==> windows_program(cmd, shell) == seq!["cmd.exe"@, "/c"@, cmd],
{
    reveal_strlit("powershell");
    reveal_strlit("pwsh");
    let a = "powershell"@;
    let b = "pwsh"@;
    if shell == pre + a + post {
        assert(shell.subrange(pre.len() as int, pre.len() as int + a.len()) =~= a);
        assert(crate::agent::command::mentions(shell, a));
    }
    if shell == pre + b + post {
        assert(shell.subrange(pre.len() as int, pre.len() as int + b.len()) =~= b);
        assert(crate::agent::command::mentions(shell, b));
    }
    if forall|i: int| 0 <= i < shell.len() ==> #[trigger] shell[i] != 'p' && shell[i] != 'P' {
        lemma_no_mention(shell, a);
        lemma_no_mention(shell, b);
    }
}

proof fn lemma_no_mention(shell: Seq<char>, w: Seq<char>)
    requires
        w.len() > 0,
        w[0] == 'p',
        forall|i: int| 0 <= i < shell.len() ==> #[trigger] shell[i] != 'p' && shell[i] != 'P',
    ensures
        !crate::agent::command::mentions(shell, w),
{
    if crate::agent::command::mentions(shell, w) {
        let i = choose|i: int|
            0 <= i <= shell.len() - w.len() && crate::text::same_ignoring_case(
                #[trigger] shell.subrange(i, i + w.len()),
                w,
            );
        let part = shell.subrange(i, i + w.len());
        assert(crate::text::ascii_lower(part[0]) == crate::text::ascii_lower(w[0]));
        assert(part[0] == shell[i]);
    }
}

/// What is told of a command: what it wrote to each of its outputs and its exit code, or -1 where
/// it has none; a command that could not be started, or did not end in time, has -1 and says why.
pub proof fn command_is_told(
    stdout: Vec<u8>,
    stderr: Vec<u8>,
    c: i32,
    e: String,
    timeout_ms: u64,
)
    ensures
        ({
            let r = command_told(
                CommandOutcome::Ended { stdout, stderr, code: Some(c) },
                timeout_ms,
            );
            r.stdout == utf8_text(stdout@) && r.stderr == utf8_text(stderr@) && r.exit_code == c
        }),
        ({
            let r = command_told(CommandOutcome::Ended { stdout, stderr, code: None }, timeout_ms);
            r.stdout == utf8_text(stdout@) && r.stderr == utf8_text(stderr@) && r.exit_code == -1
        }),
        ({
            let r = command_told(CommandOutcome::NotStarted(e), timeout_ms);
            r.stdout.len() == 0 && r.stderr == "Failed to execute command: "@ + e@ && r.exit_code
                == -1
        }),
        ({
            let r = command_told(CommandOutcome::TimedOut, timeout_ms);
            r.stdout.len() == 0 && r.stderr == "Command timed out after "@ + decimal(
                (timeout_ms / 1000) as nat,
            ) + "s"@ && r.exit_code == -1
        }),
{
}

/// The reply to a command carries what is told of it, under the id of the request; the reply about
/// a background command likewise.
pub proof fn command_reply_carries_the_result(
    sid: Seq<char>,
    r: McpResultView,
    x: ExecResultView,
    request_id: Option<Seq<char>>,
)
    ensures
        ({
            let m = command_reply(sid, r, request_id);
            &&& m.msg_type == "mcp:result"@ && m.session_id == sid
            &&& m.payload.str_field("stdout"@) == Some(r.stdout)
            &&& m.payload.str_field("stderr"@) == Some(r.stderr)
            &&& m.payload.i64_field("exit_code"@) == Some(r.exit_code as i64)
            &&& m.payload.str_field("_mcp_request_id"@) == request_id
            &&& request_id is None ==> m.payload.get("_mcp_request_id"@) is None
        }),
        ({
            let m = exec_reply(sid, x, request_id);
            &&& m.msg_type == "mcp:exec_result"@ && m.session_id == sid
            &&& m.payload.str_field("exec_id"@) == Some(x.exec_id)
            &&& m.payload.str_field("stdout"@) == Some(x.stdout)
            &&& m.payload.str_field("stderr"@) == Some(x.stderr)
            &&& m.payload.str_field("status"@) == Some(x.status)
            &&& m.payload.str_field("error"@) == x.error
            &&& x.exit_code matches Some(c) ==> m.payload.i64_field("exit_code"@) == Some(c as i64)
            &&& x.exit_code is None ==> m.payload.get("exit_code"@) is None
            &&& m.payload.str_field("_mcp_request_id"@) == request_id
        }),
{
    reveal_strlit("exec_id");
    reveal_strlit("stdout");
    reveal_strlit("stderr");
    reveal_strlit("status");
    reveal_strlit("exit_code");
    reveal_strlit("error");
    reveal_strlit("_mcp_request_id");
    assert("exec_id"@.len() != "stdout"@.len());
    assert("exec_id"@.len() != "stderr"@.len());
    assert("exec_id"@.len() != "status"@.len());
    assert("exec_id"@.len() != "exit_code"@.len());
    assert("exec_id"@.len() != "error"@.len());
    assert("exec_id"@.len() != "_mcp_request_id"@.len());
    assert("stdout"@[3] != "stderr"@[3]);
    assert("stdout"@[2] != "status"@[2]);
    assert("stdout"@.len() != "exit_code"@.len());
    assert("stdout"@.len() != "error"@.len());
    assert("stdout"@.len() != "_mcp_request_id"@.len());
    assert("stderr"@[2] != "status"@[2]);
    assert("stderr"@.len() != "exit_code"@.len());
    assert("stderr"@.len() != "error"@.len());
    assert("stderr"@.len() != "_mcp_request_id"@.len());
    assert("status"@.len() != "exit_code"@.len());
    assert("status"@.len() != "error"@.len());
    assert("status"@.len() != "_mcp_request_id"@.len());
    assert("exit_code"@.len() != "error"@.len());
    assert("exit_code"@.len() != "_mcp_request_id"@.len());
    assert("error"@.len() != "_mcp_request_id"@.len());
}

// ---- background commands ----
/// The code that a process ended with is the code that is reported, when its state is asked for and
/// when it is closed; one that still runs has none, and one that was killed, or timed out, has -1.
pub proof fn exit_code_is_reported(id: Seq<char>, s: InnerView, c: i32)
    requires
        s.status == ExecStatus::Running,
    ensures
        ({
            let r = exec_report(id, s);
            r.exec_id == id && r.status == "running"@ && r.exit_code is None && r.error is None
        }),
        ({
            let r = exec_report(id, ended(s, Some(Some(c))));
            r.exec_id == id && r.status == "exited"@ && r.exit_code == Some(c) && r.error is None
        }),
        ({
            let r = exec_report(id, closed(ended(s, Some(Some(c)))));
            r.exec_id == id && r.status == "exited"@ && r.exit_code == Some(c) && r.error is None
        }),
        ({
            let r = exec_report(id, ended(s, Some(None)));
            r.status == "exited"@ && r.exit_code == Some(-1i32)
        }),
        ({
            let r = exec_report(id, ended(s, None));
            r.status == "killed"@ && r.exit_code == Some(-1i32)
        }),
        ({
            let r = exec_report(id, closed(s));
            r.status == "killed"@ && r.exit_code == Some(-1i32)
        }),
        ({
            let r = exec_report(id, InnerView { status: ExecStatus::Timeout, ..s });
            r.status == "timeout"@ && r.exit_code == Some(-1i32)
        }),
{
}

/// What a command wrote is what is reported of it, however it ended: the text in UTF-8 and base64.
pub proof fn output_is_reported(
    id: Seq<char>,
    s: InnerView,
    text: Seq<char>,
    now: u128,
    code: Option<Option<i32>>,
)
    requires
        encode_utf8(s.output + text).len() <= 1000000,
    ensures
        exec_report(id, wrote(s, text, now)).stdout == base64_text(encode_utf8(s.output + text)),
        exec_report(id, ended(s, code)).stdout == base64_text(encode_utf8(s.output)),
        exec_report(id, closed(s)).stdout == base64_text(encode_utf8(s.output)),
        exec_report(id, s).stderr.len() == 0,
        exec_report(id, s)._mcp_request_id is None,
        wrote(s, text, now).cmd == s.cmd && wrote(s, text, now).status == s.status && wrote(
            s,
            text,
            now,
        ).started_at == s.started_at && wrote(s, text, now).last_activity == now,
        ended(s, code).cmd == s.cmd && ended(s, code).started_at == s.started_at && ended(
            s,
            code,
        ).last_activity == s.last_activity,
{
}

/// A background command runs its course: it is started, writes, ends and is closed, and what is
/// told at the end is what it wrote and the code that it ended with. It is then forgotten, and
/// other commands stay as they were.
pub proof fn command_runs_its_course(
    m: Execs,
    id: Seq<char>,
    cmd: Seq<char>,
    text: Seq<char>,
    c: i32,
    t0: u128,
    t1: u128,
    t2: u128,
    other: Seq<char>,
)
    requires
        encode_utf8(text).len() <= 1000000,
        other != id,
    ensures
        ({
            let (m1, r1) = on_started(m, id, cmd, t0);
            let m2 = on_input(on_output(m1, id, text, t1), id, t2);
            let m3 = on_end(m2, id, Some(Some(c)));
            let (m4, r4) = on_close(m3, id);
            &&& r1.exec_id == id && r1.status == "running"@ && r1.exit_code is None && r1.error
                is None
            &&& input_gate(m2, id) == Ok::<(), ExecResultView>(())
            &&& state_reply(m2, id).stdout == base64_text(encode_utf8(text))
            &&& state_reply(m2, id).status == "running"@ && state_reply(m2, id).exec_id == id
            &&& m2[id].last_activity == t2 && m2[id].started_at == t0 && m2[id].cmd == cmd
            &&& input_gate(m3, id) is Err
            &&& r4 matches Ok(r) && {
                &&& r.exec_id == id
                &&& r.status == "exited"@
                &&& r.exit_code == Some(c)
                &&& r.stdout == base64_text(encode_utf8(text))
                &&& r.error is None
            }
            &&& !m4.contains_key(id)
            &&& m4.contains_key(other) == m.contains_key(other)
            &&& m.contains_key(other) ==> m4[other] == m[other]
        }),
{
    let none = Seq::<char>::empty();
    assert(none + text =~= text);
}

/// A command that still runs is killed when it is closed; one that is not there is not found,
/// whatever is asked of it, and nothing changes.
pub proof fn closing_and_missing_commands(
    m: Execs,
    id: Seq<char>,
    text: Seq<char>,
    now: u128,
    code: Option<Option<i32>>,
)
    ensures
        m.contains_key(id) && m[id].status == ExecStatus::Running ==> (on_close(
            m,
            id,
        ).1 matches Ok(r) && r.status == "killed"@ && r.exit_code == Some(-1i32) && r.exec_id
            == id),
        !m.contains_key(id) ==> {
            &&& on_close(m, id) == (m, Err::<ExecResultView, ExecResultView>(not_found(id)))
            &&& input_gate(m, id) == Err::<(), ExecResultView>(not_found(id))
            &&& state_reply(m, id) == not_found(id)
            &&& on_output(m, id, text, now) == m
            &&& on_input(m, id, now) == m
            &&& on_end(m, id, code) == m
            &&& on_tick(m, id, now) == (m, false)
        },
{
}

/// A command that has ended refuses input and says how it ended, under its own id.
pub proof fn ended_command_refuses_input(m: Execs, id: Seq<char>, c: i32)
    requires
        m.contains_key(id),
        m[id].status != ExecStatus::Running,
    ensures
        input_gate(m, id) matches Err(r) && {
            &&& r.exec_id == id
            &&& m[id].status == ExecStatus::Exited(c) ==> r.status == "exited"@ && r.exit_code
                == Some(c) && r.error == Some(
                "Process has exited (code: "@ + decimal_int(c as int) + ")"@,
            )
            &&& m[id].status == ExecStatus::Killed ==> r.status == "killed"@ && r.error == Some(
                "Session was killed"@,
            )
            &&& m[id].status == ExecStatus::Timeout ==> r.status == "timeout"@ && r.error == Some(
                "Session timed out"@,
            )
        },
{
}

/// A command that has been idle for more than five minutes times out, and no other.
pub proof fn idle_command_times_out(m: Execs, id: Seq<char>, now: u128, other: Seq<char>)
    requires
        m.contains_key(id),
        other != id,
    ensures
        ({
            let (w, expired) = on_tick(m, id, now);
            &&& expired == (now > m[id].last_activity + 300_000_000_000)
            &&& expired ==> w[id].status == ExecStatus::Timeout && w[id].output == m[id].output
                && w[id].cmd == m[id].cmd
            &&& !expired ==> w == m
            &&& m.contains_key(other) ==> w[other] == m[other]
        }),
{
}

/// A command is started only while fewer than eight run; those that have ended are then forgotten,
/// and those that run stay. Where eight run, nothing is forgotten.
pub proof fn at_most_eight_run(m: Execs, id: Seq<char>)
    ensures
        ({
            let (w, r) = on_ask(m);
            &&& running(m).len() < 8 ==> r is Ok && (w.contains_key(id) <==> m.contains_key(id)
                && m[id].status == ExecStatus::Running) && (w.contains_key(id) ==> w[id] == m[id])
            &&& running(m).len() >= 8 ==> w == m && (r matches Err(e) && e.error == Some(
                "Max concurrent sessions (8) reached. Close some sessions first."@,
            ))
        }),
        running(m).contains(id) <==> m.contains_key(id) && m[id].status == ExecStatus::Running,
{
}

/// Of the output of a command the last million bytes are kept, in whole characters.
pub proof fn a_million_bytes_are_kept(s: InnerView, text: Seq<char>, now: u128)
    ensures
        ({
            let all = encode_utf8(s.output + text);
            let kept = encode_utf8(wrote(s, text, now).output);
            &&& kept.len() <= 1000000
            &&& kept.len() <= all.len()
            &&& kept == all.skip(all.len() - kept.len())
            &&& all.len() <= 1000000 ==> wrote(s, text, now).output == s.output + text
            &&& all.len() > 1000000 ==> kept.len() >= 999997
        }),
{
    crate::agent::exec_sessions::output_is_the_end(s, text, now);
}

/// A command that was started runs, has written nothing, and was started and heard of now.
pub proof fn started_command_runs(cmd: Seq<char>, now: u128)
    ensures
        started(cmd, now).cmd == cmd,
        started(cmd, now).output.len() == 0,
        started(cmd, now).status == ExecStatus::Running,
        started(cmd, now).started_at == now,
        started(cmd, now).last_activity == now,
{
}

/// A command is idle for too long once it has neither written nor been written to for more than
/// five minutes.
pub proof fn idle_means_five_minutes(s: InnerView, now: u128)
    ensures
        now <= s.last_activity + 300_000_000_000 ==> !idle_too_long(s, now),
        now > s.last_activity + 300_000_000_000 ==> idle_too_long(s, now),
{
}

/// Exactly the commands that have ended are forgotten to make room.
pub proof fn room_is_made_of_ended_commands(m: Execs, id: Seq<char>)
    ensures
        without_ended(m).contains_key(id) <==> m.contains_key(id) && m[id].status
            == ExecStatus::Running,
        without_ended(m).contains_key(id) ==> without_ended(m)[id] == m[id],
{
}

/// What is told of a command that is not there, could not be started, or takes no input: an error
/// that says so, under the id that was asked for.
pub proof fn errors_are_told(id: Seq<char>, why: Seq<char>, status: Seq<char>, c: Option<i32>)
    ensures
        ({
            let r = not_found(id);
            r.exec_id == id && r.status == "error"@ && r.exit_code is None && r.error == Some(
                "Session "@ + id + " not found"@,
            ) && r.stdout.len() == 0 && r.stderr.len() == 0
        }),
        ({
            let r = spawn_error(id, why);
            r.exec_id == id && r.status == "error"@ && r.exit_code is None && r.error == Some(
                "Failed to spawn process: "@ + why,
            ) && r.stderr == "Failed to spawn: "@ + why && r.stdout.len() == 0
        }),
        ({
            let r = input_lost(id);
            r.exec_id == id && r.status == "error"@ && r.exit_code is None && r.error == Some(
                "Failed to send input: process may have exited"@,
            )
        }),
        ({
            let r = too_many();
            r.exec_id.len() == 0 && r.status == "error"@ && r.exit_code is None && r.error == Some(
                "Max concurrent sessions (8) reached. Close some sessions first."@,
            )
        }),
        ({
            let r = exec_error(id, status, c, why);
            r.exec_id == id && r.status == status && r.exit_code == c && r.error == Some(why)
                && r.stdout.len() == 0 && r.stderr.len() == 0
        }),
{
}

/// A command that has ended says why it takes no input: that it has exited and with which code,
/// that it was killed, or that it timed out.
pub proof fn ended_command_says_why(c: i32)
    ensures
        ExecStatus::Exited(c).refusal() == "Process has exited (code: "@ + decimal_int(c as int)
            + ")"@,
        ExecStatus::Killed.refusal() == "Session was killed"@,
        ExecStatus::Timeout.refusal() == "Session timed out"@,
        ExecStatus::Exited(c).name() == "exited"@ && ExecStatus::Exited(c).code() == Some(c),
        ExecStatus::Killed.name() == "killed"@ && ExecStatus::Timeout.name() == "timeout"@
            && ExecStatus::Running.name() == "running"@,
        ExecStatus::Running.code() is None,
{
}

/// The list names each command with its id, its text and its state; the second it was started at is
/// the present second less the whole seconds it has run.
pub proof fn list_tells_each_command(
    id: Seq<char>,
    s: InnerView,
    now: u128,
    secs: u64,
    ran: nat,
    part: nat,
    c: i32,
    list: Seq<char>,
)
    requires
        now == s.started_at + ran * 1_000_000_000 + part,
        part < 1_000_000_000,
        ran <= secs,
    ensures
        ({
            let r = listed_exec(id, s, now, secs);
            &&& r.exec_id == id && r.cmd == s.cmd
            &&& r.started_at == secs - ran
            &&& s.status == ExecStatus::Running ==> r.status == "running"@
            &&& s.status == ExecStatus::Killed ==> r.status == "killed"@
            &&& s.status == ExecStatus::Timeout ==> r.status == "timeout"@
            &&& s.status == ExecStatus::Exited(c) ==> r.status == "exited("@ + decimal_int(
                c as int,
            ) + ")"@
        }),
        ({
            let r = list_reply(list);
            r.stdout == base64_text(encode_utf8(list)) && r.status == "ok"@ && r.error is None
                && r.exit_code is None && r.exec_id.len() == 0
        }),
{
    let d = now - s.started_at;
    assert(d / 1_000_000_000 == ran) by (nonlinear_arith)
        requires
            d == ran * 1_000_000_000 + part,
            0 <= part < 1_000_000_000,
    ;
}

/// The list has an entry for each command, in the order of the ids, and names it by its fields.
pub proof fn list_has_each_command(
    m: Execs,
    ids: Seq<Seq<char>>,
    now: u128,
    secs: u64,
    i: int,
)
    requires
        0 <= i < ids.len(),
    ensures
        exec_list(m, ids, now, secs) matches JsonView::Arr(items) && {
            let e = listed_exec(ids[i], m[ids[i]], now, secs);
            &&& items.len() == ids.len()
            &&& items[i].str_field("exec_id"@) == Some(ids[i])
            &&& items[i].str_field("cmd"@) == Some(m[ids[i]].cmd)
            &&& items[i].str_field("status"@) == Some(e.status)
            &&& items[i].u64_field("started_at"@) == Some(e.started_at)
        },
{
    reveal_strlit("exec_id");
    reveal_strlit("cmd");
    reveal_strlit("status");
    reveal_strlit("started_at");
    assert("exec_id"@.len() != "cmd"@.len());
    assert("exec_id"@.len() != "status"@.len());
    assert("exec_id"@.len() != "started_at"@.len());
    assert("cmd"@.len() != "status"@.len());
    assert("cmd"@.len() != "started_at"@.len());
    assert("status"@.len() != "started_at"@.len());
}

// ---- callers ----
/// Whether a response is that of a tool to a request: one text, and whether it is an error.
pub open spec fn responds(doc: JsonView, id: JsonView, text: Seq<char>, is_error: bool) -> bool {
    &&& doc.str_field("jsonrpc"@) == Some("2.0"@)
    &&& doc.get("id"@) == Some(id)
    &&& doc.get("error"@) is None
    &&& doc.get("result"@) matches Some(r) && {
        &&& r.get("content"@) matches Some(JsonView::Arr(items)) && items.len() == 1
            && items[0].str_field("type"@) == Some("text"@) && items[0].str_field("text"@) == Some(
            text,
        )
        &&& is_error ==> r.bool_field("isError"@) == Some(true)
        &&& !is_error ==> r.get("isError"@) is None
    }
}

/// Whether a response names an error.
pub open spec fn responds_error(doc: JsonView, id: JsonView, code: int, why: Seq<char>) -> bool {
    &&& doc.str_field("jsonrpc"@) == Some("2.0"@)
    &&& doc.get("id"@) == Some(id)
    &&& doc.get("result"@) is None
    &&& doc.get("error"@) matches Some(e) && e.get("code"@) == Some(JsonView::Int(code))
        && e.str_field("message"@) == Some(why)
}

proof fn lemma_words()
    ensures
        "jsonrpc"@ != "id"@ && "jsonrpc"@ != "result"@ && "jsonrpc"@ != "error"@ && "id"@
            != "result"@ && "id"@ != "error"@ && "result"@ != "error"@,
        "content"@ != "isError"@ && "type"@ != "text"@ && "code"@ != "message"@,
{
    reveal_strlit("jsonrpc");
    reveal_strlit("id");
    reveal_strlit("result");
    reveal_strlit("error");
    assert("jsonrpc"@.len() != "id"@.len());
    assert("jsonrpc"@.len() != "result"@.len());
    assert("jsonrpc"@.len() != "error"@.len());
    assert("id"@.len() != "result"@.len());
    assert("id"@.len() != "error"@.len());
    assert("result"@.len() != "error"@.len());
    reveal_strlit("content");
    reveal_strlit("isError");
    assert("content"@[0] != "isError"@[0]);
    reveal_strlit("type");
    reveal_strlit("text");
    assert("type"@[1] != "text"@[1]);
    reveal_strlit("code");
    reveal_strlit("message");
    assert("code"@.len() != "message"@.len());
}

/// What a command wrote is what the caller gets. Where it wrote to its second output too, that
/// follows under a heading; only where it wrote nothing at all does its exit code stand there.
/// White space at either end is left out. The relay stays as it is.
pub proof fn caller_gets_the_output(
    v: RelayView,
    request_id: Seq<char>,
    rpc_id: JsonView,
    r: JsonView,
    o: Seq<char>,
    e: Seq<char>,
    n: i64,
)
    requires
        r.str_field("stdout"@) == Some(o),
        r.str_field("stderr"@) == Some(e),
        r.i64_field("exit_code"@) == Some(n),
    ensures
        ({
            let (w, doc) = mcp_end(v, request_id, rpc_id, Some(r));
            &&& w == v
            &&& e.len() == 0 && o.len() > 0 ==> responds(doc, rpc_id, trimmed(o), false)
            &&& e.len() > 0 ==> responds(
                doc,
                rpc_id,
                trimmed(o + "\n[stderr]\n"@ + e),
                false,
            )
            &&& e.len() == 0 && o.len() == 0 ==> responds(
                doc,
                rpc_id,
                trimmed("Exit code: "@ + decimal_int(n as int)),
                false,
            )
        }),
{
    lemma_words();
    reveal_strlit("\n[stderr]\n");
    assert(o + "\n[stderr]\n"@ + e =~= o + ("\n[stderr]\n"@ + e));
}

/// What an agent tells of a command is what the caller gets, from the agent's own result.
pub proof fn caller_gets_the_agents_result(
    v: RelayView,
    request_id: Seq<char>,
    rpc_id: JsonView,
    result: McpResultView,
)
    ensures
        ({
            let doc = mcp_end(v, request_id, rpc_id, Some(result.json())).1;
            &&& result.stderr.len() == 0 && result.stdout.len() > 0 ==> responds(
                doc,
                rpc_id,
                trimmed(result.stdout),
                false,
            )
            &&& result.stderr.len() > 0 ==> responds(
                doc,
                rpc_id,
                trimmed(result.stdout + "\n[stderr]\n"@ + result.stderr),
                false,
            )
            &&& result.stderr.len() == 0 && result.stdout.len() == 0 ==> responds(
                doc,
                rpc_id,
                trimmed("Exit code: "@ + decimal_int(result.exit_code as int)),
                false,
            )
        }),
{
    reveal_strlit("stdout");
    reveal_strlit("stderr");
    reveal_strlit("exit_code");
    assert("stdout"@[3] != "stderr"@[3]);
    assert("stdout"@.len() != "exit_code"@.len());
    assert("stderr"@.len() != "exit_code"@.len());
    caller_gets_the_output(
        v,
        request_id,
        rpc_id,
        result.json(),
        result.stdout,
        result.stderr,
        result.exit_code as i64,
    );
}

/// A call whose agent gives no result in time is answered as an error, and nothing waits for its
/// result any more.
pub proof fn caller_hears_of_a_timeout(v: RelayView, request_id: Seq<char>, rpc_id: JsonView)
    ensures
        ({
            let (w, doc) = mcp_end(v, request_id, rpc_id, None);
            &&& responds(
                doc,
                rpc_id,
                "Error: Request timed out or agent disconnected"@,
                true,
            )
            &&& w.pending == v.pending.remove(request_id)
            &&& w.registry == v.registry && w.channels == v.channels && w.streams == v.streams
        }),
{
    lemma_words();
}

proof fn lemma_methods()
    ensures
        "initialize"@ != "tools/list"@ && "initialize"@ != "tools/call"@ && "tools/list"@
            != "tools/call"@,
{
    reveal_strlit("initialize");
    reveal_strlit("tools/list");
    reveal_strlit("tools/call");
    assert("initialize"@[0] != "tools/list"@[0]);
    assert("initialize"@[0] != "tools/call"@[0]);
    assert("tools/list"@[6] != "tools/call"@[6]);
}

/// The token that a call is made with: the one among its arguments, or else the one of its request.
pub open spec fn token_given(url_token: Option<Seq<char>>, args: JsonView, token: Seq<char>) -> bool {
    args.str_field("token"@) == Some(token) || args.str_field("token"@) is None && (url_token
        == Some(token) || url_token is None && token.len() == 0)
}

/// The message that carries a command to an agent.
pub open spec fn exec_doc(
    sid: Seq<char>,
    cmd: Seq<char>,
    timeout_ms: Option<u64>,
    request_id: Seq<char>,
) -> JsonView {
    let p = Map::<Seq<char>, JsonView>::empty().insert("cmd"@, JsonView::Str(cmd));
    let q = match timeout_ms {
        Some(t) => p.insert("timeout_ms"@, JsonView::Int(t as int)),
        None => p,
    };
    doc_of(
        "mcp:exec"@,
        sid,
        JsonView::Obj(q.insert("_mcp_request_id"@, JsonView::Str(request_id))),
    )
}

/// A call of `exec_remote` with a token that allows writing goes to the agent of the session that
/// the token opens: the command as it was given, with its time limit and the id of the request. The
/// caller waits that long, but no more than five minutes, and thirty seconds where no limit was
/// given.
pub proof fn call_reaches_the_agent(
    v: RelayView,
    url_token: Option<Seq<char>>,
    body: JsonView,
    version: Seq<char>,
    request_id: Seq<char>,
    params: JsonView,
    args: JsonView,
    token: Seq<char>,
    cmd: Seq<char>,
    sid: Seq<char>,
)
    requires
        body.str_field("method"@) == Some("tools/call"@),
        body.at("params"@) == params,
        params.str_field("name"@) == Some("exec_remote"@),
        params.at("arguments"@) == args,
        cmd == given(args, "cmd"@, Seq::empty()),
        token_given(url_token, args, token),
        v.registry.authenticate(token) == Some((sid, Permission::ReadWrite)),
        v.online(sid),
    ensures
        ({
            let (w, step) = mcp_begin(v, url_token, body, version, request_id);
            let limit = args.u64_field("timeout_ms"@);
            &&& w.pending == v.pending.insert(request_id, sid)
            &&& w.channels[sid].agent == Some(
                delivered(v.channels[sid].agent->0, exec_doc(sid, cmd, limit, request_id)),
            )
            &&& w.streams == v.streams && w.registry == v.registry
            &&& step matches McpStepView::Wait { request_id: id, rpc_id, timeout_ms } && {
                &&& id == request_id
                &&& rpc_id == body.at("id"@)
                &&& limit is None ==> timeout_ms == 30000
                &&& limit matches Some(t) ==> timeout_ms == if t < 300000 {
                    t
                } else {
                    300000
                }
            }
        }),
{
    lemma_methods();
    reveal_strlit("");
    assert(""@ =~= Seq::<char>::empty());
    assert(token.len() == 0 ==> token =~= ""@);
}

/// A call that cannot be made is answered at once, and nothing is asked of an agent: where the tool
/// is another, the token opens nothing or only allows reading, or no agent listens.
pub proof fn bad_calls_are_answered(
    v: RelayView,
    url_token: Option<Seq<char>>,
    body: JsonView,
    version: Seq<char>,
    request_id: Seq<char>,
    params: JsonView,
    args: JsonView,
    token: Seq<char>,
    sid: Seq<char>,
    id: JsonView,
)
    requires
        body.str_field("method"@) == Some("tools/call"@),
        body.at("params"@) == params,
        params.at("arguments"@) == args,
        token_given(url_token, args, token),
        body.at("id"@) == id,
    ensures
        ({
            let (w, step) = mcp_begin(v, url_token, body, version, request_id);
            &&& params.str_field("name"@) is Some && params.str_field("name"@)->0
                != "exec_remote"@ ==> w == v && (step matches McpStepView::Respond(doc) && responds_error(
                doc,
                id,
                -32601,
                "Unknown tool: "@ + params.str_field("name"@)->0,
            ))
            &&& params.str_field("name"@) == Some("exec_remote"@) ==> {
                &&& v.registry.authenticate(token) is None ==> w == v && (
                step matches McpStepView::Respond(doc) && responds_error(
                    doc,
                    id,
                    -32001,
                    "Invalid token"@,
                ))
                &&& v.registry.authenticate(token) == Some((sid, Permission::ReadOnly)) ==> w == v
                    && (step matches McpStepView::Respond(doc) && responds_error(
                    doc,
                    id,
                    -32002,
                    "Read-only token cannot call exec_remote"@,
                ))
                &&& v.registry.authenticate(token) == Some((sid, Permission::ReadWrite))
                    && !v.online(sid) ==> w.channels == v.channels && w.pending
                    == v.pending.remove(request_id) && (step matches McpStepView::Respond(doc)
                    && responds(doc, id, "Error: No agent connected for this session"@, true))
            }
        }),
{
    lemma_methods();
    lemma_words();
    reveal_strlit("");
    assert(""@ =~= Seq::<char>::empty());
    assert(token.len() == 0 ==> token =~= ""@);
}

/// What the server says of itself: the protocol, its name and its version. It offers one tool,
/// `exec_remote`, which asks for a token and a command. Any other method is an error. Nothing
/// changes.
pub proof fn server_describes_itself(
    v: RelayView,
    url_token: Option<Seq<char>>,
    body: JsonView,
    version: Seq<char>,
    request_id: Seq<char>,
    method: Seq<char>,
    id: JsonView,
)
    requires
        method == given(body, "method"@, Seq::empty()),
        method != "tools/call"@,
        body.at("id"@) == id,
    ensures
        ({
            let (w, step) = mcp_begin(v, url_token, body, version, request_id);
            &&& w == v
            &&& step matches McpStepView::Respond(doc) && {
                &&& doc.str_field("jsonrpc"@) == Some("2.0"@)
                &&& doc.get("id"@) == Some(id)
                &&& method == "initialize"@ ==> (doc.get("result"@) matches Some(r) && {
                    &&& r.str_field("protocolVersion"@) == Some("2024-11-05"@)
                    &&& r.get("serverInfo"@) matches Some(s) && s.str_field("name"@) == Some(
                        "shell-remote"@,
                    ) && s.str_field("version"@) == Some(version)
                    &&& r.get("capabilities"@) matches Some(c) && c.get("tools"@) is Some
                })
                &&& method == "tools/list"@ ==> ({
                    let tools = doc.at("result"@).at("tools"@).as_arr();
                    let tool = (tools->0)[0];
                    &&& tools is Some && (tools->0).len() == 1
                    &&& tool.str_field("name"@) == Some("exec_remote"@)
                    &&& tool.str_field("description"@) is Some
                    &&& tool.get("inputSchema"@) matches Some(s) && {
                        &&& s.str_field("type"@) == Some("object"@)
                        &&& s.get("required"@) == Some(
                            JsonView::Arr(
                                seq![JsonView::Str("token"@), JsonView::Str("cmd"@)],
                            ),
                        )
                        &&& s.get("properties"@) matches Some(p) && {
                            &&& p.get("token"@) matches Some(x) && x.str_field("type"@) == Some(
                                "string"@,
                            )
                            &&& p.get("cmd"@) matches Some(x) && x.str_field("type"@) == Some(
                                "string"@,
                            )
                            &&& p.get("timeout_ms"@) matches Some(x) && x.str_field("type"@)
                                == Some("number"@)
                        }
                    }
                })
                &&& method != "initialize"@ && method != "tools/list"@ ==> responds_error(
                    doc,
                    id,
                    -32601,
                    "Unknown method: "@ + method,
                )
            }
        }),
{
    lemma_methods();
    lemma_words();
    reveal_strlit("");
    assert(""@ =~= Seq::<char>::empty());
    reveal_strlit("protocolVersion");
    reveal_strlit("serverInfo");
    reveal_strlit("capabilities");
    assert("protocolVersion"@.len() != "serverInfo"@.len());
    assert("protocolVersion"@.len() != "capabilities"@.len());
    assert("serverInfo"@.len() != "capabilities"@.len());
    reveal_strlit("name");
    reveal_strlit("version");
    assert("name"@.len() != "version"@.len());
    reveal_strlit("name");
    reveal_strlit("description");
    reveal_strlit("inputSchema");
    assert("name"@.len() != "description"@.len());
    assert("name"@.len() != "inputSchema"@.len());
    assert("description"@[0] != "inputSchema"@[0]);
    reveal_strlit("type");
    reveal_strlit("properties");
    reveal_strlit("required");
    assert("type"@.len() != "properties"@.len());
    assert("type"@.len() != "required"@.len());
    assert("properties"@.len() != "required"@.len());
    reveal_strlit("type");
    reveal_strlit("description");
    assert("type"@.len() != "description"@.len());
    reveal_strlit("token");
    reveal_strlit("cmd");
    reveal_strlit("timeout_ms");
    assert("token"@.len() != "cmd"@.len());
    assert("token"@.len() != "timeout_ms"@.len());
    assert("cmd"@.len() != "timeout_ms"@.len());
}

// ---- the endpoint ----
/// A stream is opened for a caller with the server password, in the header or else in the query,
/// and for every caller where there is none. It names the endpoint to post to, with the id of the
/// stream.
pub proof fn stream_needs_the_password(
    v: RelayView,
    header_auth: Seq<char>,
    query_auth: Seq<char>,
    id: Seq<char>,
)
    ensures
        ({
            let (w, opened) = mcp_open(v, header_auth, query_auth, id);
            let right = v.server_auth.len() == 0 || header_auth == v.server_auth
                || header_auth.len() == 0 && query_auth == v.server_auth;
            &&& right ==> {
                &&& w.mcp_streams == v.mcp_streams.insert(id)
                &&& w.registry == v.registry && w.channels == v.channels && w.streams == v.streams
                    && w.pending == v.pending
                &&& opened matches McpStreamView::Open { stream_id, endpoint } && stream_id == id
                    && endpoint == "/agent/mcp/messages?sessionId="@ + id
            }
            &&& !right ==> w == v && opened == McpStreamView::Refused(
                "{\"code\":\"AUTH_INVALID_PASSWORD\",\"message\":\"Invalid server password\"}"@,
            )
        }),
{
}

/// A posted message is taken for an open stream that it names, from a caller with the server
/// password in the header, the query or the message. Each way in which it is not taken has its own
/// answer, and the response of a message that is taken goes to the stream that it names.
pub proof fn post_names_an_open_stream(
    v: RelayView,
    who: Seq<char>,
    header_auth: Seq<char>,
    query_auth: Seq<char>,
    session: Option<Seq<char>>,
    body: JsonView,
    now: u128,
)
    ensures
        ({
            let (w, r) = mcp_post(v, who, header_auth, query_auth, session, body, now);
            let in_time = counted(v, who, 60, now).1;
            let given_auth = if header_auth.len() > 0 {
                header_auth
            } else if query_auth.len() > 0 {
                query_auth
            } else {
                given(body, "auth"@, ""@)
            };
            let right = v.server_auth.len() == 0 || given_auth == v.server_auth;
            &&& w == counted(v, who, 60, now).0
            &&& !in_time ==> (r matches McpPostView::Refused(x) && says_text(
                x,
                429,
                "Too many requests"@,
            ))
            &&& in_time && !right ==> (r matches McpPostView::Refused(x) && {
                &&& x.status == 200
                &&& x.body matches BodyView::Json(doc) && responds_error(
                    doc,
                    body.at("id"@),
                    -32001,
                    "Invalid server password"@,
                )
            })
            &&& in_time && right && (session is None || (session->0).len() == 0) ==> (
            r matches McpPostView::Refused(x) && says_text(x, 400, "Missing sessionId"@))
            &&& in_time && right && session is Some && (session->0).len() > 0
                && !v.mcp_streams.contains(session->0) ==> (r matches McpPostView::Refused(x)
                && says_text(x, 404, "SSE session not found"@))
            &&& in_time && right && session is Some && (session->0).len() > 0
                && v.mcp_streams.contains(session->0) ==> (r matches McpPostView::Accepted {
                reply,
                stream_id,
            } && says_text(reply, 202, ""@) && stream_id == session->0)
        }),
{
    lemma_words();
}

} // verus!
