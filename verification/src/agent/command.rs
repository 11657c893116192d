//! Commands that run to their end: how they are started, and what is told of them.
use vstd::prelude::*;

use crate::payload::{McpResultPayload, McpResultView};
use crate::relay::auth::{read_text, utf8_text};
use crate::text::{decimal, decimal_u64, join2, join3, same_ignoring_case, texts_view};

verus! {

/// The program that runs a command on Unix, with its arguments. With `script` at hand the command
/// gets a terminal of its own.
pub open spec fn unix_program(cmd: Seq<char>, has_script: bool) -> Seq<Seq<char>> {
    if has_script {
        seq!["script"@, "-q"@, "-c"@, cmd, "/dev/null"@]
    } else {
        seq!["sh"@, "-c"@, cmd]
    }
}

pub fn unix_command(cmd: &str, has_script: bool) -> (r: Vec<String>)
    ensures
        texts_view(r@) == unix_program(cmd@, has_script),
{
    let mut r: Vec<String> = Vec::new();
    if has_script {
        r.push("script".to_owned());
        r.push("-q".to_owned());
        r.push("-c".to_owned());
        r.push(cmd.to_owned());
        r.push("/dev/null".to_owned());
    } else {
        r.push("sh".to_owned());
        r.push("-c".to_owned());
        r.push(cmd.to_owned());
    }
    assert(texts_view(r@) =~= unix_program(cmd@, has_script));
    r
}

/// Whether `part` occurs in `s`, up to ASCII case.
pub open spec fn mentions(s: Seq<char>, part: Seq<char>) -> bool {
    exists|i: int|
        0 <= i <= s.len() - part.len() && same_ignoring_case(
            #[trigger] s.subrange(i, i + part.len()),
            part,
        )
}

/// Whether a shell is a PowerShell.
pub open spec fn is_powershell(shell: Seq<char>) -> bool {
    mentions(shell, "powershell"@) || mentions(shell, "pwsh"@)
}

/// The program that runs a command on Windows, with its arguments.
pub open spec fn windows_program(cmd: Seq<char>, shell: Seq<char>) -> Seq<Seq<char>> {
    if is_powershell(shell) {
        seq![shell, "-NoProfile"@, "-Command"@, cmd]
    } else {
        seq!["cmd.exe"@, "/c"@, cmd]
    }
}

fn does_mention(s: &str, part: &str) -> (r: bool)
    ensures
        r == mentions(s@, part@),
{
    let n = s.unicode_len();
    let m = part.unicode_len();
    if n < m {
        return false;
    }
    let last: usize = n - m;
    let mut i: usize = 0;
    while i <= last
        invariant
            i <= last + 1,
            last == n - m,
            n == s@.len(),
            m == part@.len(),
            forall|j: int|
                0 <= j < i ==> !same_ignoring_case(
                    #[trigger] s@.subrange(j, j + part@.len()),
                    part@,
                ),
        decreases last + 1 - i,
    {
        if crate::text::eq_ignore_case(s.substring_char(i, i + m), part) {
            return true;
        }
        if i == last {
            return false;
        }
        i = i + 1;
    }
    false
}

pub fn windows_command(cmd: &str, shell: &str) -> (r: Vec<String>)
    ensures
        texts_view(r@) == windows_program(cmd@, shell@),
{
    let mut r: Vec<String> = Vec::new();
    if does_mention(shell, "powershell") || does_mention(shell, "pwsh") {
        r.push(shell.to_owned());
        r.push("-NoProfile".to_owned());
        r.push("-Command".to_owned());
        r.push(cmd.to_owned());
    } else {
        r.push("cmd.exe".to_owned());
        r.push("/c".to_owned());
        r.push(cmd.to_owned());
    }
    assert(texts_view(r@) =~= windows_program(cmd@, shell@));
    r
}

/// How a command went.
pub enum CommandOutcome {
    /// It ended, with its exit code if it has one.
    Ended { stdout: Vec<u8>, stderr: Vec<u8>, code: Option<i32> },
    /// It could not be started.
    NotStarted(String),
    /// It did not end in time.
    TimedOut,
}

/// What is told of a command.
pub open spec fn command_told(outcome: CommandOutcome, timeout_ms: u64) -> McpResultView {
    match outcome {
        CommandOutcome::Ended { stdout, stderr, code } => McpResultView {
            stdout: utf8_text(stdout@),
            stderr: utf8_text(stderr@),
            exit_code: match code {
                Some(c) => c,
                None => (-1) as i32,
            },
        },
        CommandOutcome::NotStarted(e) => McpResultView {
            stdout: Seq::empty(),
            stderr: "Failed to execute command: "@ + e@,
            exit_code: (-1) as i32,
        },
        CommandOutcome::TimedOut => McpResultView {
            stdout: Seq::empty(),
            stderr: "Command timed out after "@ + decimal((timeout_ms / 1000) as nat) + "s"@,
            exit_code: (-1) as i32,
        },
    }
}

/// Tells how a command went.
pub fn command_result(outcome: &CommandOutcome, timeout_ms: u64) -> (r: McpResultPayload)
    ensures
        r@ == command_told(*outcome, timeout_ms),
{
    match outcome {
        CommandOutcome::Ended { stdout, stderr, code } => McpResultPayload {
            stdout: read_text(stdout.as_slice()),
            stderr: read_text(stderr.as_slice()),
            exit_code: match code {
                Some(c) => *c,
                None => -1,
            },
        },
        CommandOutcome::NotStarted(e) => McpResultPayload {
            stdout: String::new(),
            stderr: join2("Failed to execute command: ", e.as_str()),
            exit_code: -1,
        },
        CommandOutcome::TimedOut => McpResultPayload {
            stdout: String::new(),
            stderr: join3(
                "Command timed out after ",
                decimal_u64(timeout_ms / 1000).as_str(),
                "s",
            ),
            exit_code: -1,
        },
    }
}

} // verus!
