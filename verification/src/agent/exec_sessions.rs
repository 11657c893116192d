//! Background commands: how many run, what they wrote, and how they ended.
use vstd::prelude::*;
use vstd::utf8::*;

use crate::agent::fs::encode_b64;
use crate::clock::{unix_secs, Clock, MAX_NANOS, NANOS_PER_SEC};
use crate::json::{items_view, lemma_items_view, Json, JsonView};
use crate::outside::{base64_bytes, base64_size, base64_text, is_uuid, new_uuid};
use crate::payload::{ExecResultPayload, ExecResultView, ExecSessionInfo, ExecSessionInfoView};
use crate::relay::auth::{read_text, utf8_text};
use crate::strmap::{values_where, StrMap};
use crate::text::{decimal_i64, decimal_int, join2, join3, texts_view};

verus! {

/// How many bytes of a command's output are kept.
pub const MAX_OUTPUT_BUF: usize = 1000000;

/// How many background commands may run at a time.
pub const MAX_RUNNING: usize = 8;

/// How long a command may neither write nor be written to, in seconds.
pub const IDLE_TIMEOUT_SECS: u64 = 300;

/// How a background command is.
#[derive(Debug, Clone, Copy, PartialEq, Eq, Structural)]
pub enum ExecStatus {
    Running,
    Exited(i32),
    Killed,
    Timeout,
}

/// One background command. Times are nanoseconds of the manager's clock.
pub struct InnerSession {
    pub cmd: String,
    pub output_buf: String,
    pub status: ExecStatus,
    pub started_at: u128,
    pub last_activity: u128,
}

pub struct InnerView {
    pub cmd: Seq<char>,
    pub output: Seq<char>,
    pub status: ExecStatus,
    pub started_at: u128,
    pub last_activity: u128,
}

impl View for InnerSession {
    type V = InnerView;

    open spec fn view(&self) -> InnerView {
        InnerView {
            cmd: self.cmd@,
            output: self.output_buf@,
            status: self.status,
            started_at: self.started_at,
            last_activity: self.last_activity,
        }
    }
}

impl InnerSession {
    pub fn copy(&self) -> (r: InnerSession)
        ensures
            r@ == self@,
    {
        InnerSession {
            cmd: self.cmd.clone(),
            output_buf: self.output_buf.clone(),
            status: self.status,
            started_at: self.started_at,
            last_activity: self.last_activity,
        }
    }
}

/// The background commands by id.
pub type Execs = Map<Seq<char>, InnerView>;

// ---- output ----
/// The longest end of a text that takes at most `max` bytes: characters go from its beginning while
/// the rest takes more.
pub open spec fn tail_text(t: Seq<char>, max: nat) -> Seq<char>
    decreases t.len(),
{
    if t.len() == 0 || encode_utf8(t).len() <= max {
        t
    } else {
        tail_text(t.skip(1), max)
    }
}

proof fn lemma_first_char(t: Seq<char>)
    requires
        t.len() > 0,
    ensures
        1 <= length_of_first_scalar(encode_utf8(t)) <= 4,
        pop_first_scalar(encode_utf8(t)) == encode_utf8(t.skip(1)),
        encode_utf8(t.skip(1)) == encode_utf8(t).skip(length_of_first_scalar(encode_utf8(t))),
        encode_utf8(t).len() == length_of_first_scalar(encode_utf8(t)) + encode_utf8(
            t.skip(1),
        ).len(),
{
    encode_utf8_first_scalar(t);
    assert(t.drop_first() =~= t.skip(1));
    assert(pop_first_scalar(encode_utf8(t)) =~= encode_utf8(t.skip(1)));
    assert(encode_utf8(t).skip(length_of_first_scalar(encode_utf8(t))) =~= encode_utf8(t.skip(1)));
}

proof fn lemma_tail(t: Seq<char>, max: nat)
    ensures
        ({
            let all = encode_utf8(t);
            let kept = encode_utf8(tail_text(t, max));
            &&& kept.len() <= max
            &&& kept.len() <= all.len()
            &&& kept == all.skip(all.len() - kept.len())
            &&& all.len() <= max ==> tail_text(t, max) == t
            &&& all.len() > max ==> kept.len() + 3 >= max
        }),
    decreases t.len(),
{
    let all = encode_utf8(t);
    if t.len() == 0 || all.len() <= max {
        assert(all.skip(0) =~= all);
    } else {
        lemma_first_char(t);
        lemma_tail(t.skip(1), max);
        let rest = encode_utf8(t.skip(1));
        let kept = encode_utf8(tail_text(t, max));
        assert(rest.skip(rest.len() - kept.len()) =~= all.skip(all.len() - kept.len()));
    }
}

/// The bytes from the first place on, at or after which `max` bytes are left, that a character begins
/// at are those of the tail.
proof fn lemma_tail_at(t: Seq<char>, max: nat, k: int)
    requires
        encode_utf8(t).len() > max,
        encode_utf8(t).len() - max <= k <= encode_utf8(t).len(),
        is_char_boundary(encode_utf8(t), k),
        forall|j: int|
            encode_utf8(t).len() - max <= j < k ==> !#[trigger] is_char_boundary(
                encode_utf8(t),
                j,
            ),
    ensures
        encode_utf8(t).skip(k) == encode_utf8(tail_text(t, max)),
    decreases t.len(),
{
    let all = encode_utf8(t);
    encode_utf8_valid_utf8(t);
    lemma_first_char(t);
    let rest = encode_utf8(t.skip(1));
    let n = length_of_first_scalar(all);
    encode_utf8_valid_utf8(t.skip(1));
    reveal_with_fuel(is_char_boundary, 3);
    assert(k >= n);
    assert(is_char_boundary(all, n));
    assert(rest.skip(k - n) =~= all.skip(k));
    if rest.len() <= max {
        assert(k == n);
        assert(rest.skip(0) =~= rest);
        reveal_with_fuel(tail_text, 2);
    } else {
        assert forall|j: int| rest.len() - max <= j < k - n implies !#[trigger] is_char_boundary(
            rest,
            j,
        ) by {
            assert(!is_char_boundary(all, j + n));
        }
        lemma_tail_at(t.skip(1), max, k - n);
    }
}

/// Keeps the longest end of a text that takes at most `max` bytes.
pub fn keep_tail(t: String, max: usize) -> (r: String)
    ensures
        r@ == tail_text(t@, max as nat),
        encode_utf8(r@).len() <= max,
{
    proof {
        lemma_tail(t@, max as nat);
        encode_utf8_valid_utf8(t@);
        is_char_boundary_start_end_of_seq(encode_utf8(t@));
    }
    let n = t.as_str().as_bytes().len();
    if n <= max {
        return t;
    }
    let mut cut: usize = n - max;
    while !t.as_str().is_char_boundary(cut)
        invariant
            n == encode_utf8(t@).len(),
            n - max <= cut <= n,
            max < n,
            is_char_boundary(encode_utf8(t@), n as int),
            forall|j: int|
                n - max <= j < cut ==> !#[trigger] is_char_boundary(encode_utf8(t@), j),
        decreases n - cut,
    {
        cut = cut + 1;
    }
    let parts = t.as_str().split_at(cut);
    proof {
        let bytes = encode_utf8(t@);
        lemma_tail_at(t@, max as nat, cut as int);
        assert(bytes.subrange(cut as int, n as int) =~= bytes.skip(cut as int));
        encode_utf8_decode_utf8(parts.1@);
        encode_utf8_decode_utf8(tail_text(t@, max as nat));
    }
    parts.1.to_owned()
}

// ---- replies ----
/// A reply about a command that failed.
pub open spec fn exec_error(
    id: Seq<char>,
    status: Seq<char>,
    exit_code: Option<i32>,
    error: Seq<char>,
) -> ExecResultView {
    ExecResultView {
        exec_id: id,
        stdout: Seq::empty(),
        stderr: Seq::empty(),
        status,
        exit_code,
        error: Some(error),
        _mcp_request_id: None,
    }
}

fn error_result(id: &str, status: &str, exit_code: Option<i32>, error: &str) -> (r:
    ExecResultPayload)
    ensures
        r@ == exec_error(id@, status@, exit_code, error@),
{
    ExecResultPayload {
        exec_id: id.to_owned(),
        stdout: String::new(),
        stderr: String::new(),
        status: status.to_owned(),
        exit_code,
        error: Some(error.to_owned()),
        _mcp_request_id: None,
    }
}

impl ExecStatus {
    /// The name of a status.
    pub open spec fn name(self) -> Seq<char> {
        match self {
            ExecStatus::Running => "running"@,
            ExecStatus::Exited(_) => "exited"@,
            ExecStatus::Killed => "killed"@,
            ExecStatus::Timeout => "timeout"@,
        }
    }

    /// The exit code that a status is reported with.
    pub open spec fn code(self) -> Option<i32> {
        match self {
            ExecStatus::Running => None,
            ExecStatus::Exited(code) => Some(code),
            ExecStatus::Killed => Some((-1) as i32),
            ExecStatus::Timeout => Some((-1) as i32),
        }
    }

    /// How a status is listed.
    pub open spec fn listed(self) -> Seq<char> {
        match self {
            ExecStatus::Exited(code) => "exited("@ + decimal_int(code as int) + ")"@,
            _ => self.name(),
        }
    }

    /// Why a command with this status takes no input.
    pub open spec fn refusal(self) -> Seq<char> {
        match self {
            ExecStatus::Exited(code) => "Process has exited (code: "@ + decimal_int(code as int)
                + ")"@,
            ExecStatus::Killed => "Session was killed"@,
            _ => "Session timed out"@,
        }
    }

    pub fn as_str(&self) -> (r: &'static str)
        ensures
            r@ == self.name(),
    {
        match self {
            ExecStatus::Running => "running",
            ExecStatus::Exited(_) => "exited",
            ExecStatus::Killed => "killed",
            ExecStatus::Timeout => "timeout",
        }
    }

    pub fn exit_code(&self) -> (r: Option<i32>)
        ensures
            r == self.code(),
    {
        match self {
            ExecStatus::Running => None,
            ExecStatus::Exited(code) => Some(*code),
            ExecStatus::Killed => Some(-1),
            ExecStatus::Timeout => Some(-1),
        }
    }

    fn listed_text(&self) -> (r: String)
        ensures
            r@ == self.listed(),
    {
        match self {
            ExecStatus::Exited(code) => join3(
                "exited(",
                decimal_i64(*code as i64).as_str(),
                ")",
            ),
            _ => self.as_str().to_owned(),
        }
    }

    fn refusal_text(&self) -> (r: String)
        ensures
            r@ == self.refusal(),
    {
        match self {
            ExecStatus::Exited(code) => join3(
                "Process has exited (code: ",
                decimal_i64(*code as i64).as_str(),
                ")",
            ),
            ExecStatus::Killed => "Session was killed".to_owned(),
            _ => "Session timed out".to_owned(),
        }
    }
}

/// A reply that tells how a command is and what it wrote, in base64.
pub open spec fn exec_report(id: Seq<char>, s: InnerView) -> ExecResultView {
    ExecResultView {
        exec_id: id,
        stdout: base64_text(encode_utf8(s.output)),
        stderr: Seq::empty(),
        status: s.status.name(),
        exit_code: s.status.code(),
        error: None,
        _mcp_request_id: None,
    }
}

/// Tells how a command is and what it wrote.
pub fn report(exec_id: &str, s: &InnerSession) -> (r: ExecResultPayload)
    requires
        encode_utf8(s@.output).len() <= MAX_OUTPUT_BUF,
    ensures
        r@ == exec_report(exec_id@, s@),
        base64_bytes(r@.stdout) == Some(encode_utf8(s@.output)),
{
    ExecResultPayload {
        exec_id: exec_id.to_owned(),
        stdout: encode_b64(s.output_buf.as_str().as_bytes()),
        stderr: String::new(),
        status: s.status.as_str().to_owned(),
        exit_code: s.status.exit_code(),
        error: None,
        _mcp_request_id: None,
    }
}

pub open spec fn not_found(id: Seq<char>) -> ExecResultView {
    exec_error(id, "error"@, None, "Session "@ + id + " not found"@)
}

fn not_found_result(id: &str) -> (r: ExecResultPayload)
    ensures
        r@ == not_found(id@),
{
    error_result(id, "error", None, join3("Session ", id, " not found").as_str())
}

/// The reply where a process could not be started.
pub open spec fn spawn_error(id: Seq<char>, why: Seq<char>) -> ExecResultView {
    ExecResultView {
        stderr: "Failed to spawn: "@ + why,
        ..exec_error(id, "error"@, None, "Failed to spawn process: "@ + why)
    }
}

/// Tells that a process could not be started.
pub fn spawn_failed(exec_id: &str, why: &str) -> (r: ExecResultPayload)
    ensures
        r@ == spawn_error(exec_id@, why@),
{
    let mut r = error_result(
        exec_id,
        "error",
        None,
        join2("Failed to spawn process: ", why).as_str(),
    );
    r.stderr = join2("Failed to spawn: ", why);
    r
}

/// The reply where input could not be handed to a process.
pub open spec fn input_lost(id: Seq<char>) -> ExecResultView {
    exec_error(id, "error"@, None, "Failed to send input: process may have exited"@)
}

/// Tells that input could not be handed to a process.
pub fn input_failed(exec_id: &str) -> (r: ExecResultPayload)
    ensures
        r@ == input_lost(exec_id@),
{
    error_result(exec_id, "error", None, "Failed to send input: process may have exited")
}

// ---- what happens to commands ----
/// The commands without those that have ended.
pub open spec fn without_ended(m: Execs) -> Execs {
    values_where(m, |s: InnerView| s.status == ExecStatus::Running)
}

/// The ids of the commands that run.
pub open spec fn running(m: Execs) -> Set<Seq<char>> {
    without_ended(m).dom()
}

fn runs(s: &InnerSession) -> (b: bool)
    ensures
        b == (s@.status == ExecStatus::Running),
{
    s.status == ExecStatus::Running
}

/// A command that has just been started.
pub open spec fn started(cmd: Seq<char>, now: u128) -> InnerView {
    InnerView {
        cmd,
        output: Seq::empty(),
        status: ExecStatus::Running,
        started_at: now,
        last_activity: now,
    }
}

/// The reply where too many commands run.
pub open spec fn too_many() -> ExecResultView {
    exec_error(
        Seq::empty(),
        "error"@,
        None,
        "Max concurrent sessions (8) reached. Close some sessions first."@,
    )
}

/// A command after it wrote something.
pub open spec fn wrote(s: InnerView, text: Seq<char>, now: u128) -> InnerView {
    InnerView {
        output: tail_text(s.output + text, MAX_OUTPUT_BUF as nat),
        last_activity: now,
        ..s
    }
}

/// A command after its process ended: with its exit code, or none that could be told.
pub open spec fn ended(s: InnerView, code: Option<Option<i32>>) -> InnerView {
    if s.status == ExecStatus::Running {
        InnerView {
            status: match code {
                Some(Some(c)) => ExecStatus::Exited(c),
                Some(None) => ExecStatus::Exited((-1) as i32),
                None => ExecStatus::Killed,
            },
            ..s
        }
    } else {
        s
    }
}

/// Whether a command has been idle for too long.
pub open spec fn idle_too_long(s: InnerView, now: u128) -> bool {
    s.last_activity + IDLE_TIMEOUT_SECS * NANOS_PER_SEC < now
}

/// A command that is closed while it runs is killed.
pub open spec fn closed(s: InnerView) -> InnerView {
    if s.status == ExecStatus::Running {
        InnerView { status: ExecStatus::Killed, ..s }
    } else {
        s
    }
}

/// The reply to a request that may fail.
pub open spec fn reply_view(r: Result<ExecResultPayload, ExecResultPayload>) -> Result<
    ExecResultView,
    ExecResultView,
> {
    match r {
        Ok(p) => Ok(p@),
        Err(p) => Err(p@),
    }
}

/// A process was started under an id.
pub open spec fn on_started(m: Execs, id: Seq<char>, cmd: Seq<char>, now: u128) -> (
    Execs,
    ExecResultView,
) {
    (m.insert(id, started(cmd, now)), exec_report(id, started(cmd, now)))
}

/// A process wrote something.
pub open spec fn on_output(m: Execs, id: Seq<char>, text: Seq<char>, now: u128) -> Execs {
    if m.contains_key(id) {
        m.insert(id, wrote(m[id], text, now))
    } else {
        m
    }
}

/// Input reached a process.
pub open spec fn on_input(m: Execs, id: Seq<char>, now: u128) -> Execs {
    if m.contains_key(id) {
        m.insert(id, InnerView { last_activity: now, ..m[id] })
    } else {
        m
    }
}

/// A process ended.
pub open spec fn on_end(m: Execs, id: Seq<char>, code: Option<Option<i32>>) -> Execs {
    if m.contains_key(id) {
        m.insert(id, ended(m[id], code))
    } else {
        m
    }
}

/// It is looked whether a command has been idle for too long; one that has is timed out.
pub open spec fn on_tick(m: Execs, id: Seq<char>, now: u128) -> (Execs, bool) {
    if m.contains_key(id) && idle_too_long(m[id], now) {
        (m.insert(id, InnerView { status: ExecStatus::Timeout, ..m[id] }), true)
    } else {
        (m, false)
    }
}

/// Whether a command takes input, and why not.
pub open spec fn input_gate(m: Execs, id: Seq<char>) -> Result<(), ExecResultView> {
    if !m.contains_key(id) {
        Err(not_found(id))
    } else if m[id].status == ExecStatus::Running {
        Ok(())
    } else {
        Err(exec_error(id, m[id].status.name(), m[id].status.code(), m[id].status.refusal()))
    }
}

/// What is told of a command that input was handed to.
pub open spec fn state_reply(m: Execs, id: Seq<char>) -> ExecResultView {
    if m.contains_key(id) {
        exec_report(id, m[id])
    } else {
        not_found(id)
    }
}

/// A command is closed.
pub open spec fn on_close(m: Execs, id: Seq<char>) -> (
    Execs,
    Result<ExecResultView, ExecResultView>,
) {
    if m.contains_key(id) {
        (m.remove(id), Ok(exec_report(id, closed(m[id]))))
    } else {
        (m, Err(not_found(id)))
    }
}

/// Room is asked for one more command.
pub open spec fn on_ask(m: Execs) -> (Execs, Result<(), ExecResultView>) {
    if running(m).len() < MAX_RUNNING {
        (without_ended(m), Ok(()))
    } else {
        (m, Err(too_many()))
    }
}

/// Whether input is taken, and what is told where it is not.
pub open spec fn gate_view(r: Result<(), ExecResultPayload>) -> Result<(), ExecResultView> {
    match r {
        Ok(_) => Ok(()),
        Err(p) => Err(p@),
    }
}

/// The commands of an agent.
pub struct ExecSessionManager {
    sessions: StrMap<InnerSession>,
    clock: Clock,
}

impl View for ExecSessionManager {
    type V = Execs;

    closed spec fn view(&self) -> Execs {
        self.sessions@
    }
}

/// Every command keeps its output within the limit.
pub open spec fn output_bounded(m: Execs) -> bool {
    forall|id: Seq<char>| #[trigger]
        m.contains_key(id) ==> encode_utf8(m[id].output).len() <= MAX_OUTPUT_BUF
}

impl ExecSessionManager {
    #[verifier::type_invariant]
    spec fn inv(self) -> bool {
        output_bounded(self@)
    }

    pub fn new() -> (m: Self)
        ensures
            m@ == Map::<Seq<char>, InnerView>::empty(),
    {
        ExecSessionManager { sessions: StrMap::new(), clock: Clock::start() }
    }

    /// The time on the manager's clock.
    pub fn now(&self) -> (n: u128)
        ensures
            n <= MAX_NANOS,
    {
        self.clock.nanos()
    }

    /// The command under an id.
    pub fn get(&self, exec_id: &str) -> (r: Option<&InnerSession>)
        ensures
            match r {
                Some(s) => self@.contains_key(exec_id@) && s@ == self@[exec_id@],
                None => !self@.contains_key(exec_id@),
            },
            output_bounded(self@),
    {
        proof {
            use_type_invariant(self);
        }
        self.sessions.get(exec_id)
    }

    /// How many commands run.
    pub fn running_count(&self) -> (n: usize)
        ensures
            running(self@).finite(),
            n == running(self@).len(),
    {
        let ids = self.sessions.keys_where(
            runs,
            Ghost(|s: InnerView| s.status == ExecStatus::Running),
        );
        proof {
            texts_view(ids@).unique_seq_to_set();
        }
        ids.len()
    }

    /// Forgets the commands that have ended.
    pub fn reap_terminated(&mut self)
        ensures
            final(self)@ == without_ended(old(self)@),
    {
        let ghost m = self@;
        proof {
            use_type_invariant(&*self);
        }
        let mut sessions: StrMap<InnerSession> = StrMap::new();
        std::mem::swap(&mut sessions, &mut self.sessions);
        sessions.retain(runs, Ghost(|s: InnerView| s.status == ExecStatus::Running));
        assert(output_bounded(sessions@)) by {
            assert forall|id: Seq<char>| #[trigger] sessions@.contains_key(id) implies encode_utf8(
                sessions@[id].output,
            ).len() <= MAX_OUTPUT_BUF by {
                assert(m.contains_key(id));
            }
        }
        self.sessions = sessions;
    }

    /// Asks to start a command. Unless too many run, the ended ones are forgotten and a process may
    /// be started.
    pub fn make_room(&mut self) -> (r: Result<(), ExecResultPayload>)
        ensures
            match r {
                Ok(_) => running(old(self)@).len() < MAX_RUNNING && final(self)@ == without_ended(
                    old(self)@,
                ),
                Err(p) => running(old(self)@).len() >= MAX_RUNNING && p@ == too_many()
                    && final(self)@ == old(self)@,
            },
            running(old(self)@).finite(),
            (final(self)@, gate_view(r)) == on_ask(old(self)@),
    {
        if self.running_count() >= MAX_RUNNING {
            return Err(
                error_result(
                    String::new().as_str(),
                    "error",
                    None,
                    "Max concurrent sessions (8) reached. Close some sessions first.",
                ),
            );
        }
        self.reap_terminated();
        Ok(())
    }

    /// Asks to start a command, and gives it a fresh id.
    pub fn spawn(&mut self) -> (r: Result<String, ExecResultPayload>)
        ensures
            match r {
                Ok(id) => is_uuid(id@) && running(old(self)@).len() < MAX_RUNNING && final(self)@
                    == without_ended(old(self)@),
                Err(p) => running(old(self)@).len() >= MAX_RUNNING && p@ == too_many()
                    && final(self)@ == old(self)@,
            },
    {
        match self.make_room() {
            Ok(_) => Ok(new_uuid()),
            Err(p) => Err(p),
        }
    }

    fn put(&mut self, exec_id: &str, s: InnerSession)
        requires
            encode_utf8(s@.output).len() <= MAX_OUTPUT_BUF,
        ensures
            final(self)@ == old(self)@.insert(exec_id@, s@),
    {
        proof {
            use_type_invariant(&*self);
        }
        let ghost m = self@;
        let mut sessions: StrMap<InnerSession> = StrMap::new();
        std::mem::swap(&mut sessions, &mut self.sessions);
        sessions.insert(exec_id.to_owned(), s);
        assert(output_bounded(sessions@)) by {
            assert forall|id: Seq<char>| #[trigger] sessions@.contains_key(id) implies encode_utf8(
                sessions@[id].output,
            ).len() <= MAX_OUTPUT_BUF by {
                if id != exec_id@ {
                    assert(m.contains_key(id));
                }
            }
        }
        self.sessions = sessions;
    }

    /// Takes note of a process that was started, and tells of it.
    pub fn spawned(&mut self, exec_id: &str, cmd: &str, now: u128) -> (r: ExecResultPayload)
        ensures
            final(self)@ == old(self)@.insert(exec_id@, started(cmd@, now)),
            r@ == exec_report(exec_id@, started(cmd@, now)),
            (final(self)@, r@) == on_started(old(self)@, exec_id@, cmd@, now),
    {
        let s = InnerSession {
            cmd: cmd.to_owned(),
            output_buf: String::new(),
            status: ExecStatus::Running,
            started_at: now,
            last_activity: now,
        };
        assert(encode_utf8(Seq::<char>::empty()) =~= Seq::<u8>::empty());
        let r = report(exec_id, &s);
        self.put(exec_id, s);
        r
    }

    /// Takes note of what a process wrote.
    pub fn wrote(&mut self, exec_id: &str, data: &[u8], now: u128)
        ensures
            final(self)@ == if old(self)@.contains_key(exec_id@) {
                old(self)@.insert(
                    exec_id@,
                    wrote(old(self)@[exec_id@], utf8_text(data@), now),
                )
            } else {
                old(self)@
            },
            final(self)@ == on_output(old(self)@, exec_id@, utf8_text(data@), now),
    {
        let text = read_text(data);
        let mut s = match self.sessions.get(exec_id) {
            Some(s) => s.copy(),
            None => {
                return;
            },
        };
        let mut all = s.output_buf.clone();
        all.append(text.as_str());
        s.output_buf = keep_tail(all, MAX_OUTPUT_BUF);
        s.last_activity = now;
        self.put(exec_id, s);
    }

    /// Takes note that input reached a process.
    pub fn touched(&mut self, exec_id: &str, now: u128)
        ensures
            final(self)@ == if old(self)@.contains_key(exec_id@) {
                old(self)@.insert(
                    exec_id@,
                    InnerView { last_activity: now, ..old(self)@[exec_id@] },
                )
            } else {
                old(self)@
            },
            final(self)@ == on_input(old(self)@, exec_id@, now),
    {
        proof {
            use_type_invariant(&*self);
        }
        let mut s = match self.sessions.get(exec_id) {
            Some(s) => s.copy(),
            None => {
                return;
            },
        };
        s.last_activity = now;
        self.put(exec_id, s);
    }

    /// Ends a command that has been idle for too long. Returns whether it was.
    pub fn expire(&mut self, exec_id: &str, now: u128) -> (expired: bool)
        ensures
            ({
                let m = old(self)@;
                &&& expired == (m.contains_key(exec_id@) && idle_too_long(m[exec_id@], now))
                &&& final(self)@ == if expired {
                    m.insert(
                        exec_id@,
                        InnerView { status: ExecStatus::Timeout, ..m[exec_id@] },
                    )
                } else {
                    m
                }
            }),
            (final(self)@, expired) == on_tick(old(self)@, exec_id@, now),
    {
        proof {
            use_type_invariant(&*self);
        }
        let mut s = match self.sessions.get(exec_id) {
            Some(s) => s.copy(),
            None => {
                return false;
            },
        };
        let limit: u128 = IDLE_TIMEOUT_SECS as u128 * NANOS_PER_SEC;
        if now > s.last_activity && now - s.last_activity > limit {
            s.status = ExecStatus::Timeout;
            self.put(exec_id, s);
            true
        } else {
            false
        }
    }

    /// Takes note that a process ended: with its exit code where it could be waited for.
    pub fn ended(&mut self, exec_id: &str, code: Option<Option<i32>>)
        ensures
            final(self)@ == if old(self)@.contains_key(exec_id@) {
                old(self)@.insert(exec_id@, ended(old(self)@[exec_id@], code))
            } else {
                old(self)@
            },
            final(self)@ == on_end(old(self)@, exec_id@, code),
    {
        proof {
            use_type_invariant(&*self);
        }
        let mut s = match self.sessions.get(exec_id) {
            Some(s) => s.copy(),
            None => {
                return;
            },
        };
        if s.status == ExecStatus::Running {
            s.status = match code {
                Some(Some(c)) => ExecStatus::Exited(c),
                Some(None) => ExecStatus::Exited(-1),
                None => ExecStatus::Killed,
            };
        }
        self.put(exec_id, s);
    }

    /// Asks to write to a command. A command that is unknown or has ended takes no input.
    pub fn write_stdin(&self, exec_id: &str) -> (r: Result<(), ExecResultPayload>)
        ensures
            match r {
                Ok(_) => self@.contains_key(exec_id@) && self@[exec_id@].status
                    == ExecStatus::Running,
                Err(p) => p@ == (if !self@.contains_key(exec_id@) {
                    not_found(exec_id@)
                } else {
                    let status = self@[exec_id@].status;
                    exec_error(exec_id@, status.name(), status.code(), status.refusal())
                }) && !(self@.contains_key(exec_id@) && self@[exec_id@].status
                    == ExecStatus::Running),
            },
            gate_view(r) == input_gate(self@, exec_id@),
    {
        match self.sessions.get(exec_id) {
            None => Err(not_found_result(exec_id)),
            Some(s) => if s.status == ExecStatus::Running {
                Ok(())
            } else {
                Err(
                    error_result(
                        exec_id,
                        s.status.as_str(),
                        s.status.exit_code(),
                        s.status.refusal_text().as_str(),
                    ),
                )
            },
        }
    }

    /// Tells how a command is once input was handed to it.
    pub fn stdin_written(&self, exec_id: &str) -> (r: ExecResultPayload)
        ensures
            r@ == if self@.contains_key(exec_id@) {
                exec_report(exec_id@, self@[exec_id@])
            } else {
                not_found(exec_id@)
            },
            r@ == state_reply(self@, exec_id@),
    {
        proof {
            use_type_invariant(self);
        }
        match self.sessions.get(exec_id) {
            Some(s) => report(exec_id, s),
            None => not_found_result(exec_id),
        }
    }

    /// Closes a command and forgets it. One that still runs is killed.
    pub fn close(&mut self, exec_id: &str) -> (r: Result<ExecResultPayload, ExecResultPayload>)
        ensures
            final(self)@ == old(self)@.remove(exec_id@),
            match r {
                Ok(p) => old(self)@.contains_key(exec_id@) && p@ == exec_report(
                    exec_id@,
                    closed(old(self)@[exec_id@]),
                ),
                Err(p) => !old(self)@.contains_key(exec_id@) && p@ == not_found(exec_id@),
            },
            (final(self)@, reply_view(r)) == on_close(old(self)@, exec_id@),
    {
        proof {
            use_type_invariant(&*self);
        }
        let ghost m = self@;
        let mut sessions: StrMap<InnerSession> = StrMap::new();
        std::mem::swap(&mut sessions, &mut self.sessions);
        let removed = sessions.remove(exec_id);
        self.sessions = sessions;
        match removed {
            Some(s) => {
                let mut s = s;
                if s.status == ExecStatus::Running {
                    s.status = ExecStatus::Killed;
                }
                Ok(report(exec_id, &s))
            },
            None => Err(not_found_result(exec_id)),
        }
    }

    /// The ids of the commands, each once.
    pub fn ids(&self) -> (r: Vec<String>)
        ensures
            crate::text::texts_view(r@).no_duplicates(),
            crate::text::texts_view(r@).to_set() == self@.dom(),
    {
        let n = self.sessions.len();
        let mut r: Vec<String> = Vec::new();
        let mut i: usize = 0;
        while i < n
            invariant
                i <= n,
                n == self.sessions.keys().len(),
                r@.len() == i,
                forall|j: int| 0 <= j < i ==> (#[trigger] r@[j])@ == self.sessions.keys()[j],
            decreases n - i,
        {
            r.push(self.sessions.key_at(i).clone());
            i = i + 1;
        }
        assert(crate::text::texts_view(r@) =~= self.sessions.keys());
        r
    }

    /// Forgets all commands.
    pub fn shutdown_all(&mut self)
        ensures
            final(self)@ == Map::<Seq<char>, InnerView>::empty(),
    {
        self.sessions = StrMap::new();
    }
}

// ---- the list ----
/// The second at which a command was started, by the wall clock: the present one less the seconds
/// that it has run.
pub open spec fn start_second(s: InnerView, now: u128, now_secs: u64) -> u64 {
    let ran = if now > s.started_at {
        (now - s.started_at) / (NANOS_PER_SEC as int)
    } else {
        0
    };
    if ran < now_secs {
        (now_secs - ran) as u64
    } else {
        0
    }
}

/// What the list says of a command.
pub open spec fn listed_exec(id: Seq<char>, s: InnerView, now: u128, now_secs: u64) ->
    ExecSessionInfoView {
    ExecSessionInfoView {
        exec_id: id,
        cmd: s.cmd,
        status: s.status.listed(),
        started_at: start_second(s, now, now_secs),
    }
}

/// The list of the commands in the order `ids`.
pub open spec fn exec_list(m: Execs, ids: Seq<Seq<char>>, now: u128, now_secs: u64) -> JsonView {
    JsonView::Arr(
        ids.map_values(|id: Seq<char>| listed_exec(id, m[id], now, now_secs).json()),
    )
}

impl ExecSessionManager {
    /// The ids of the commands, in the order in which they are listed.
    pub closed spec fn order(&self) -> Seq<Seq<char>> {
        self.sessions.keys()
    }

    /// Lists the commands at the times given.
    pub fn list_at(&self, now: u128, now_secs: u64) -> (r: Json)
        ensures
            r@ == exec_list(self@, self.order(), now, now_secs),
            self.order().no_duplicates(),
            self.order().to_set() == self@.dom(),
    {
        let n = self.sessions.len();
        let ghost ids = self.order();
        let mut items: Vec<Json> = Vec::new();
        let mut i: usize = 0;
        while i < n
            invariant
                i <= n,
                n == ids.len(),
                ids == self.sessions.keys(),
                items@.len() == i,
                forall|j: int|
                    0 <= j < i ==> (#[trigger] items@[j])@ == listed_exec(
                        ids[j],
                        self@[ids[j]],
                        now,
                        now_secs,
                    ).json(),
            decreases n - i,
        {
            let s = self.sessions.value_at(i);
            let ran: u128 = if now > s.started_at {
                (now - s.started_at) / NANOS_PER_SEC
            } else {
                0
            };
            let started_at: u64 = if ran < now_secs as u128 {
                (now_secs as u128 - ran) as u64
            } else {
                0
            };
            let info = ExecSessionInfo {
                exec_id: self.sessions.key_at(i).clone(),
                cmd: s.cmd.clone(),
                status: s.status.listed_text(),
                started_at,
            };
            items.push(info.to_json());
            i = i + 1;
        }
        proof {
            lemma_items_view(items@);
            assert(items_view(items@) =~= ids.map_values(
                |id: Seq<char>| listed_exec(id, self@[id], now, now_secs).json(),
            ));
        }
        Json::Arr(items)
    }

    /// Lists the commands.
    pub fn list(&self) -> (r: Json)
        ensures
            exists|now: u128, now_secs: u64| #[trigger]
                exec_list(self@, self.order(), now, now_secs) == r@,
            self.order().no_duplicates(),
            self.order().to_set() == self@.dom(),
    {
        let now = self.now();
        let now_secs = unix_secs();
        self.list_at(now, now_secs)
    }
}

/// The reply that carries the written list, in base64.
pub open spec fn list_reply(list: Seq<char>) -> ExecResultView {
    ExecResultView {
        exec_id: Seq::empty(),
        stdout: base64_text(encode_utf8(list)),
        stderr: Seq::empty(),
        status: "ok"@,
        exit_code: None,
        error: None,
        _mcp_request_id: None,
    }
}

/// Makes the reply that carries the written list.
pub fn list_result(list: &str) -> (r: ExecResultPayload)
    requires
        base64_size(encode_utf8(list@).len()) <= isize::MAX,
    ensures
        r@ == list_reply(list@),
        base64_bytes(r@.stdout) == Some(encode_utf8(list@)),
{
    ExecResultPayload {
        exec_id: String::new(),
        stdout: encode_b64(list.as_bytes()),
        stderr: String::new(),
        status: "ok".to_owned(),
        exit_code: None,
        error: None,
        _mcp_request_id: None,
    }
}

// ---- laws ----
/// Whether no more commands run than may.
pub open spec fn bounded(m: Execs) -> bool {
    running(m).finite() && running(m).len() <= MAX_RUNNING
}

/// Never more commands run than may: one is started only while fewer do, and nothing that happens to
/// a command makes one run.
pub proof fn running_is_bounded(
    m: Execs,
    id: Seq<char>,
    cmd: Seq<char>,
    text: Seq<char>,
    code: Option<Option<i32>>,
    now: u128,
)
    requires
        bounded(m),
    ensures
        running(m).len() < MAX_RUNNING ==> bounded(without_ended(m).insert(id, started(cmd, now))),
        bounded(without_ended(m)),
        bounded(m.remove(id)),
        m.contains_key(id) ==> {
            &&& bounded(m.insert(id, wrote(m[id], text, now)))
            &&& bounded(m.insert(id, InnerView { last_activity: now, ..m[id] }))
            &&& bounded(m.insert(id, InnerView { status: ExecStatus::Timeout, ..m[id] }))
            &&& bounded(m.insert(id, ended(m[id], code)))
        },
{
    lemma_fewer_running(m, without_ended(m));
    lemma_fewer_running(m, m.remove(id));
    assert(running(without_ended(m).insert(id, started(cmd, now))) =~= running(m).insert(id));
    if m.contains_key(id) {
        lemma_fewer_running(m, m.insert(id, wrote(m[id], text, now)));
        lemma_fewer_running(m, m.insert(id, InnerView { last_activity: now, ..m[id] }));
        lemma_fewer_running(m, m.insert(id, InnerView { status: ExecStatus::Timeout, ..m[id] }));
        lemma_fewer_running(m, m.insert(id, ended(m[id], code)));
    }
}

proof fn lemma_fewer_running(m: Execs, after: Execs)
    requires
        running(m).finite(),
        forall|x: Seq<char>| running(after).contains(x) ==> #[trigger] running(m).contains(x),
    ensures
        running(after).finite(),
        running(after).len() <= running(m).len(),
{
    assert(running(after).subset_of(running(m)));
    vstd::set_lib::lemma_len_subset(running(after), running(m));
}

/// What a command writes, how it ends, and that it is closed never makes it run.
pub proof fn ended_stays_ended(
    s: InnerView,
    text: Seq<char>,
    now: u128,
    code: Option<Option<i32>>,
)
    requires
        s.status != ExecStatus::Running,
    ensures
        wrote(s, text, now).status == s.status,
        ended(s, code) == s,
        closed(s) == s,
{
}

/// A closed command is forgotten: closing it again finds nothing.
pub proof fn closed_is_forgotten(m: Execs, id: Seq<char>)
    ensures
        !m.remove(id).contains_key(id),
        running(m).finite() ==> running(m.remove(id)).finite() && running(m.remove(id)).len()
            <= running(m).len(),
{
    assert(running(m.remove(id)) =~= running(m).remove(id));
}

/// The output that is kept is the end of what was written: all of it while it fits, and else as many
/// whole characters as fit.
pub proof fn output_is_the_end(s: InnerView, text: Seq<char>, now: u128)
    ensures
        ({
            let all = encode_utf8(s.output + text);
            let kept = encode_utf8(wrote(s, text, now).output);
            &&& kept.len() <= MAX_OUTPUT_BUF
            &&& kept.len() <= all.len()
            &&& kept == all.skip(all.len() - kept.len())
            &&& all.len() <= MAX_OUTPUT_BUF ==> kept.len() == all.len()
            &&& all.len() > MAX_OUTPUT_BUF ==> kept.len() + 3 >= MAX_OUTPUT_BUF
        }),
{
    lemma_tail(s.output + text, MAX_OUTPUT_BUF as nat);
}

} // verus!
