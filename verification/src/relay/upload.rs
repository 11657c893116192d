//! Uploads: who may send a file, how large it may be, and the chunks it reaches the agent in.
use axum::http::HeaderMap;
use vstd::prelude::*;

use crate::json::{Json, JsonView};
use crate::outside::{base64_bytes, base64_encode, base64_text, is_uuid, new_uuid};
use crate::proto::{message, Message, Permission};
use crate::relay::auth::{client, client_address};
use crate::relay::state::{Offer, RelayView, SharedState};
use crate::relay::ws::{
    agent_events, count_request, counted, param, query_param, request_token, token_of_request,
};
use crate::strmap::StrMap;
use crate::text::{as_opt, join3, opt_str, to_chars};

verus! {

/// How many bytes of a file one message carries at most.
pub const CHUNK_SIZE: usize = 262144;

/// What comes of a request to upload.
pub enum UploadGate {
    /// Refused, with this status.
    Refused(u16),
    /// The file may come.
    Open(Upload),
}

pub enum UploadGateView {
    Refused(u16),
    Open(UploadView),
}

impl View for UploadGate {
    type V = UploadGateView;

    open spec fn view(&self) -> UploadGateView {
        match self {
            UploadGate::Refused(status) => UploadGateView::Refused(*status),
            UploadGate::Open(u) => UploadGateView::Open(u@),
        }
    }
}

/// Who may upload: a client at most twenty times a minute, with a token that allows writing, to a
/// path that it names. The upload begins with nothing received.
pub open spec fn upload_gate(
    v: RelayView,
    who: Seq<char>,
    token: Option<Seq<char>>,
    path: Option<Seq<char>>,
    now: u128,
    upload_id: Seq<char>,
) -> (RelayView, UploadGateView) {
    let (v1, allowed) = counted(v, who, 20, now);
    if !allowed {
        (v1, UploadGateView::Refused(429))
    } else {
        match token {
            None => (v1, UploadGateView::Refused(401)),
            Some(t) => match path {
                None => (v1, UploadGateView::Refused(400)),
                Some(p) => match v1.registry.authenticate(t) {
                    None => (v1, UploadGateView::Refused(401)),
                    Some((sid, perm)) => if perm == Permission::ReadOnly {
                        (v1, UploadGateView::Refused(403))
                    } else {
                        (
                            v1,
                            UploadGateView::Open(
                                UploadView::begun(sid, upload_id, p, v1.max_upload_size),
                            ),
                        )
                    },
                },
            },
        }
    }
}

/// Decides on a request to upload, with what it carries, the time and the id of the upload given.
pub fn upload_gate_with(
    state: &mut SharedState,
    who: &str,
    token: Option<&str>,
    path: Option<&str>,
    now: u128,
    upload_id: String,
) -> (r: UploadGate)
    ensures
        (final(state)@, r@) == upload_gate(
            old(state)@,
            who@,
            opt_str(token),
            opt_str(path),
            now,
            upload_id@,
        ),
{
    if !count_request(state, who, 20, now) {
        return UploadGate::Refused(429);
    }
    let token = match token {
        Some(t) => t,
        None => {
            return UploadGate::Refused(401);
        },
    };
    let path = match path {
        Some(p) => p,
        None => {
            return UploadGate::Refused(400);
        },
    };
    match state.sessions.authenticate(token) {
        None => UploadGate::Refused(401),
        Some((session_id, permission)) => if permission == Permission::ReadOnly {
            UploadGate::Refused(403)
        } else {
            UploadGate::Open(
                Upload::new(session_id, upload_id, path.to_owned(), state.max_upload_size),
            )
        },
    }
}

/// Decides on a request to upload. What becomes of an upload that may come is up to `Upload::step`.
pub fn upload_handler(
    state: &mut SharedState,
    headers: &HeaderMap,
    params: &StrMap<String>,
) -> (r: UploadGate)
    ensures
        exists|now: u128, upload_id: Seq<char>| #[trigger]
            upload_gate(
                old(state)@,
                client(*headers),
                request_token(*headers, params@),
                param(params@, "path"@),
                now,
                upload_id,
            ) == (final(state)@, r@) && is_uuid(upload_id),
{
    let now = state.now();
    let who = client_address(headers);
    let token = token_of_request(headers, params);
    let upload_id = new_uuid();
    upload_gate_with(
        state,
        who.as_str(),
        as_opt(&token),
        query_param(params, "path"),
        now,
        upload_id,
    )
}

/// A read-only token cannot upload.
pub proof fn read_only_cannot_upload(
    v: RelayView,
    who: Seq<char>,
    token: Seq<char>,
    path: Seq<char>,
    now: u128,
    upload_id: Seq<char>,
    sid: Seq<char>,
)
    requires
        v.registry.authenticate(token) == Some((sid, Permission::ReadOnly)),
    ensures
        upload_gate(v, who, Some(token), Some(path), now, upload_id).1 == UploadGateView::Refused(
            if counted(v, who, 20, now).1 {
                403
            } else {
                429
            },
        ),
{
}

/// A path with its slashes made underscores.
pub open spec fn flat_path(path: Seq<char>) -> Seq<char> {
    path.map_values(
        |c: char|
            if c == '/' {
                '_'
            } else {
                c
            },
    )
}

fn flatten_path(path: &str) -> (r: String)
    ensures
        r@ == flat_path(path@),
{
    let v = to_chars(path);
    let mut r = String::new();
    let mut i: usize = 0;
    while i < v.len()
        invariant
            i <= v@.len(),
            v@ == path@,
            r@ == flat_path(path@).take(i as int),
        decreases v@.len() - i,
    {
        let c = if v[i] == '/' {
            '_'
        } else {
            v[i]
        };
        r.push(c);
        assert(flat_path(path@).take(i + 1) =~= flat_path(path@).take(i as int).push(c));
        i = i + 1;
    }
    assert(flat_path(path@).take(path@.len() as int) =~= flat_path(path@));
    r
}

/// The name of the file that an upload is kept in meanwhile.
pub open spec fn temp_name(id: Seq<char>, path: Seq<char>) -> Seq<char> {
    id + "_"@ + flat_path(path)
}

/// The name of the file that an upload is kept in meanwhile, under the id given.
pub fn temp_file_with(id: &str, path: &str) -> (r: String)
    ensures
        r@ == temp_name(id@, path@),
{
    join3(id, "_", flatten_path(path).as_str())
}

/// A fresh name for the file that an upload is kept in meanwhile.
pub fn temp_file(path: &str) -> (r: String)
    ensures
        exists|id: Seq<char>| #[trigger] temp_name(id, path@) == r@ && is_uuid(id),
{
    let id = new_uuid();
    temp_file_with(id.as_str(), path)
}

// ---- chunks ----
/// How many chunks a file of `size` bytes has.
pub open spec fn chunk_count(size: nat) -> nat {
    (size + CHUNK_SIZE - 1) as nat / CHUNK_SIZE as nat
}

/// Where chunk `i` of a file begins.
pub open spec fn chunk_start(size: nat, i: nat) -> nat {
    let at = i * CHUNK_SIZE as nat;
    if at < size {
        at
    } else {
        size
    }
}

/// Chunk `i` of a file.
pub open spec fn chunk(data: Seq<u8>, i: nat) -> Seq<u8> {
    data.subrange(
        chunk_start(data.len(), i) as int,
        chunk_start(data.len(), i + 1) as int,
    )
}

/// The first `n` chunks of a file, joined.
pub open spec fn joined(data: Seq<u8>, n: nat) -> Seq<u8>
    decreases n,
{
    if n == 0 {
        Seq::empty()
    } else {
        joined(data, (n - 1) as nat) + chunk(data, (n - 1) as nat)
    }
}

proof fn lemma_joined(data: Seq<u8>, n: nat)
    ensures
        joined(data, n) == data.take(chunk_start(data.len(), n) as int),
    decreases n,
{
    let c = CHUNK_SIZE as nat;
    if n == 0 {
        assert(data.take(0) =~= Seq::<u8>::empty());
    } else {
        let m = (n - 1) as nat;
        lemma_joined(data, m);
        assert(m * c + c == n * c) by (nonlinear_arith)
            requires
                n == m + 1,
        ;
        let a = chunk_start(data.len(), m);
        let b = chunk_start(data.len(), n);
        assert(a <= b);
        assert(data.take(a as int) + data.subrange(a as int, b as int) =~= data.take(b as int));
    }
}

/// The chunks of a file, joined in order, are the file; each holds at least one byte and at most
/// `CHUNK_SIZE`.
pub proof fn chunks_make_the_file(data: Seq<u8>, i: nat)
    ensures
        joined(data, chunk_count(data.len())) == data,
        i < chunk_count(data.len()) ==> 0 < chunk(data, i).len() <= CHUNK_SIZE,
{
    let c = CHUNK_SIZE as nat;
    let n = chunk_count(data.len());
    let size = data.len();
    lemma_joined(data, n);
    assert(n * c >= size) by (nonlinear_arith)
        requires
            n == (size + c - 1) as nat / c,
            c == 262144,
    ;
    assert(data.take(size as int) =~= data);
    if i < n {
        assert((i + 1) * c == i * c + c) by (nonlinear_arith);
        assert(i * c < size) by (nonlinear_arith)
            requires
                i < n,
                n == (size + c - 1) as nat / c,
                c == 262144,
        ;
    }
}

/// Counts the chunks of a file.
pub fn count_chunks(size: u64) -> (n: u64)
    ensures
        n == chunk_count(size as nat),
{
    let c: u64 = CHUNK_SIZE as u64;
    let n: u64 = size / c;
    if size % c > 0 {
        n + 1
    } else {
        n
    }
}

/// The message that carries a chunk of a file to the agent of a session.
pub open spec fn chunk_doc(
    sid: Seq<char>,
    upload_id: Seq<char>,
    path: Seq<char>,
    content: Seq<char>,
    index: nat,
    total: nat,
) -> JsonView {
    message(
        "fs:upload"@,
        sid,
        JsonView::object().with_str("upload_id"@, upload_id).with_str("final_path"@, path).with_str(
            "content"@,
            content,
        ).with("chunk_index"@, JsonView::Int(index as int)).with(
            "total_chunks"@,
            JsonView::Int(total as int),
        ),
    ).json()
}

/// Makes the message that carries a chunk. Its content is the chunk in base64.
pub fn chunk_message(
    session_id: &str,
    upload_id: &str,
    path: &str,
    data: &[u8],
    index: u64,
    total: u64,
) -> (r: Json)
    requires
        data@.len() <= CHUNK_SIZE,
    ensures
        r@ == chunk_doc(
            session_id@,
            upload_id@,
            path@,
            base64_text(data@),
            index as nat,
            total as nat,
        ),
        base64_bytes(base64_text(data@)) == Some(data@),
{
    let content = base64_encode(data);
    let payload = Json::object().with_str("upload_id", upload_id).with_str(
        "final_path",
        path,
    ).with_str("content", content.as_str()).with("chunk_index", Json::Int(index as i128)).with(
        "total_chunks",
        Json::Int(total as i128),
    );
    Message::new("fs:upload", session_id, payload).to_json()
}

// ---- the course of an upload ----
/// How far an upload is.
pub enum UploadPhase {
    /// The body is coming.
    Receiving,
    /// So many chunks were sent; the next is being read.
    Sending(u64),
    /// Chunk `index` is offered to the agent.
    Offering { index: u64, data: Vec<u8> },
    /// The request was answered with this status.
    Answered(u16),
}

pub enum UploadPhaseView {
    Receiving,
    Sending(u64),
    Offering { index: u64, data: Seq<u8> },
    Answered(u16),
}

impl View for UploadPhase {
    type V = UploadPhaseView;

    open spec fn view(&self) -> UploadPhaseView {
        match self {
            UploadPhase::Receiving => UploadPhaseView::Receiving,
            UploadPhase::Sending(i) => UploadPhaseView::Sending(*i),
            UploadPhase::Offering { index, data } => UploadPhaseView::Offering {
                index: *index,
                data: data@,
            },
            UploadPhase::Answered(status) => UploadPhaseView::Answered(*status),
        }
    }
}

/// What happens to an upload.
pub enum UploadEvent {
    /// So many bytes of the body came.
    Piece(usize),
    /// The body is complete; the connection of the agent, if it has one.
    BodyEnd { connection: Option<u64> },
    /// The body could not be received or kept.
    IoFailed,
    /// The next bytes of the file.
    Chunk(Vec<u8>),
    /// There are no more bytes in the file.
    FileEnd,
    /// The offered message came to this.
    Offered(Offer),
    /// There may be room for a message again.
    Ready,
}

pub enum UploadEventView {
    Piece(usize),
    BodyEnd { connection: Option<u64> },
    IoFailed,
    Chunk(Seq<u8>),
    FileEnd,
    Offered(Offer),
    Ready,
}

impl View for UploadEvent {
    type V = UploadEventView;

    open spec fn view(&self) -> UploadEventView {
        match self {
            UploadEvent::Piece(n) => UploadEventView::Piece(*n),
            UploadEvent::BodyEnd { connection } => UploadEventView::BodyEnd {
                connection: *connection,
            },
            UploadEvent::IoFailed => UploadEventView::IoFailed,
            UploadEvent::Chunk(data) => UploadEventView::Chunk(data@),
            UploadEvent::FileEnd => UploadEventView::FileEnd,
            UploadEvent::Offered(o) => UploadEventView::Offered(*o),
            UploadEvent::Ready => UploadEventView::Ready,
        }
    }
}

/// What is to be done about an upload.
pub enum UploadAction {
    /// Keep the bytes that came, and go on receiving.
    Store,
    /// Read on in the file, up to so many bytes.
    ReadChunk(usize),
    /// Offer a message to the agent.
    Offer(Json),
    /// Wait until there may be room for a message.
    Wait,
    /// Answer the request with this status.
    Answer(u16),
}

pub enum UploadActionView {
    Store,
    ReadChunk(usize),
    Offer(JsonView),
    Wait,
    Answer(u16),
}

impl View for UploadAction {
    type V = UploadActionView;

    open spec fn view(&self) -> UploadActionView {
        match self {
            UploadAction::Store => UploadActionView::Store,
            UploadAction::ReadChunk(n) => UploadActionView::ReadChunk(*n),
            UploadAction::Offer(m) => UploadActionView::Offer(m@),
            UploadAction::Wait => UploadActionView::Wait,
            UploadAction::Answer(status) => UploadActionView::Answer(*status),
        }
    }
}

/// An upload on its way from the request to the agent.
pub struct Upload {
    session_id: String,
    upload_id: String,
    path: String,
    limit: u64,
    received: u64,
    connection: u64,
    phase: UploadPhase,
}

#[verifier::ext_equal]
pub struct UploadView {
    pub session_id: Seq<char>,
    pub upload_id: Seq<char>,
    pub path: Seq<char>,
    /// How many bytes may come.
    pub limit: u64,
    /// How many bytes came.
    pub received: u64,
    /// The connection that the chunks go to, once the body is complete.
    pub connection: u64,
    pub phase: UploadPhaseView,
}

impl View for Upload {
    type V = UploadView;

    closed spec fn view(&self) -> UploadView {
        UploadView {
            session_id: self.session_id@,
            upload_id: self.upload_id@,
            path: self.path@,
            limit: self.limit,
            received: self.received,
            connection: self.connection,
            phase: self.phase@,
        }
    }
}

impl UploadView {
    /// An upload of which nothing has come yet.
    pub open spec fn begun(
        session_id: Seq<char>,
        upload_id: Seq<char>,
        path: Seq<char>,
        limit: u64,
    ) -> UploadView {
        UploadView {
            session_id,
            upload_id,
            path,
            limit,
            received: 0,
            connection: 0,
            phase: UploadPhaseView::Receiving,
        }
    }

    /// The message that carries a chunk of this upload.
    pub open spec fn doc(self, index: nat, data: Seq<u8>) -> JsonView {
        chunk_doc(
            self.session_id,
            self.upload_id,
            self.path,
            base64_text(data),
            index,
            chunk_count(self.received as nat),
        )
    }

    /// The chunks are sent to a connection of the agent.
    pub open spec fn sending_to(self, connection: u64) -> UploadView {
        UploadView { connection, phase: UploadPhaseView::Sending(0), ..self }
    }

    pub open spec fn in_phase(self, phase: UploadPhaseView) -> UploadView {
        UploadView { phase, ..self }
    }

    /// The request is answered.
    pub open spec fn answered(self, status: u16) -> (UploadView, UploadActionView) {
        (self.in_phase(UploadPhaseView::Answered(status)), UploadActionView::Answer(status))
    }
}

/// The course of an upload. The first bytes that do not fit the limit end it with 413. Once the body
/// is complete its chunks are offered in order to the connection that the agent then has, each until
/// it is taken. An agent that is not there, or not by that connection, and anything that fails, ends
/// it with 500. The end of the file ends it with 200. An upload that was answered stays so.
pub open spec fn upload_step(v: UploadView, ev: UploadEventView) -> (UploadView, UploadActionView) {
    match v.phase {
        UploadPhaseView::Receiving => match ev {
            UploadEventView::Piece(n) => if v.received + n <= v.limit {
                (
                    UploadView { received: (v.received + n) as u64, ..v },
                    UploadActionView::Store,
                )
            } else {
                v.answered(413)
            },
            UploadEventView::BodyEnd { connection: Some(c) } => (
                v.sending_to(c),
                UploadActionView::ReadChunk(CHUNK_SIZE),
            ),
            _ => v.answered(500),
        },
        UploadPhaseView::Sending(index) => match ev {
            UploadEventView::Chunk(data) => if data.len() == 0 {
                v.answered(200)
            } else if data.len() > CHUNK_SIZE || index == u64::MAX {
                v.answered(500)
            } else {
                (
                    v.in_phase(UploadPhaseView::Offering { index, data }),
                    UploadActionView::Offer(v.doc(index as nat, data)),
                )
            },
            UploadEventView::FileEnd => v.answered(200),
            _ => v.answered(500),
        },
        UploadPhaseView::Offering { index, data } => match ev {
            UploadEventView::Offered(Offer::Sent) => (
                v.in_phase(UploadPhaseView::Sending((index + 1) as u64)),
                UploadActionView::ReadChunk(CHUNK_SIZE),
            ),
            UploadEventView::Offered(Offer::Full) => (v, UploadActionView::Wait),
            UploadEventView::Ready => (
                v,
                UploadActionView::Offer(v.doc(index as nat, data)),
            ),
            _ => v.answered(500),
        },
        UploadPhaseView::Answered(status) => (v, UploadActionView::Answer(status)),
    }
}

impl Upload {
    #[verifier::type_invariant]
    spec fn inv(self) -> bool {
        &&& self.received <= self.limit
        &&& match self.phase {
            UploadPhase::Offering { index, data } => index < u64::MAX && data@.len() <= CHUNK_SIZE,
            _ => true,
        }
    }

    pub fn new(session_id: String, upload_id: String, path: String, limit: u64) -> (u: Upload)
        ensures
            u@ == UploadView::begun(session_id@, upload_id@, path@, limit),
    {
        Upload {
            session_id,
            upload_id,
            path,
            limit,
            received: 0,
            connection: 0,
            phase: UploadPhase::Receiving,
        }
    }

    /// The session whose agent the file is for.
    pub fn session_id(&self) -> (r: &str)
        ensures
            r@ == self@.session_id,
    {
        self.session_id.as_str()
    }

    /// Where the file goes on the agent's machine.
    pub fn path(&self) -> (r: &str)
        ensures
            r@ == self@.path,
    {
        self.path.as_str()
    }

    fn move_to(&mut self, phase: UploadPhase)
        requires
            phase matches UploadPhase::Offering { index, data } ==> index < u64::MAX && data@.len()
                <= CHUNK_SIZE,
        ensures
            final(self)@ == old(self)@.in_phase(phase@),
    {
        proof {
            use_type_invariant(&*self);
        }
        let mut phase = phase;
        std::mem::swap(&mut self.phase, &mut phase);
    }

    fn answer(&mut self, status: u16) -> (a: UploadAction)
        ensures
            (final(self)@, a@) == old(self)@.answered(status),
    {
        self.move_to(UploadPhase::Answered(status));
        UploadAction::Answer(status)
    }

    fn receive(&mut self, n: usize) -> (fits: bool)
        ensures
            fits == (old(self)@.received + n <= old(self)@.limit),
            final(self)@ == if fits {
                (UploadView { received: (old(self)@.received + n) as u64, ..old(self)@ })
            } else {
                old(self)@
            },
    {
        proof {
            use_type_invariant(&*self);
        }
        if n as u64 > self.limit - self.received {
            false
        } else {
            self.received = self.received + n as u64;
            true
        }
    }

    fn offered_message(&self) -> (r: Option<Json>)
        ensures
            match self@.phase {
                UploadPhaseView::Offering { index, data } => {
                    &&& r is Some
                    &&& r->0@ == self@.doc(index as nat, data)
                    &&& base64_bytes(base64_text(data)) == Some(data)
                },
                _ => r is None,
            },
    {
        proof {
            use_type_invariant(self);
        }
        match &self.phase {
            UploadPhase::Offering { index, data } => {
                let total = count_chunks(self.received);
                Some(
                    chunk_message(
                        self.session_id.as_str(),
                        self.upload_id.as_str(),
                        self.path.as_str(),
                        data.as_slice(),
                        *index,
                        total,
                    ),
                )
            },
            _ => None,
        }
    }

    fn offer(&mut self) -> (a: UploadAction)
        ensures
            match old(self)@.phase {
                UploadPhaseView::Offering { index, data } => {
                    &&& final(self)@ == old(self)@
                    &&& a@ == UploadActionView::Offer(old(self)@.doc(index as nat, data))
                    &&& base64_bytes(base64_text(data)) == Some(data)
                },
                _ => (final(self)@, a@) == old(self)@.answered(500),
            },
    {
        match self.offered_message() {
            Some(m) => UploadAction::Offer(m),
            None => self.answer(500),
        }
    }

    /// Takes note of what happened to the upload, and says what is to be done. The content of an
    /// offered chunk decodes to its bytes.
    pub fn step(&mut self, ev: UploadEvent) -> (a: UploadAction)
        ensures
            (final(self)@, a@) == upload_step(old(self)@, ev@),
            a is Offer ==> (final(self)@.phase matches UploadPhaseView::Offering { data, .. }
                && base64_bytes(base64_text(data)) == Some(data)),
    {
        proof {
            use_type_invariant(&*self);
        }
        let sending: Option<u64> = match &self.phase {
            UploadPhase::Answered(status) => {
                return UploadAction::Answer(*status);
            },
            UploadPhase::Receiving => {
                return match ev {
                    UploadEvent::Piece(n) => if self.receive(n) {
                        UploadAction::Store
                    } else {
                        self.answer(413)
                    },
                    UploadEvent::BodyEnd { connection: Some(c) } => {
                        self.connection = c;
                        self.move_to(UploadPhase::Sending(0));
                        UploadAction::ReadChunk(CHUNK_SIZE)
                    },
                    _ => self.answer(500),
                };
            },
            UploadPhase::Sending(index) => Some(*index),
            UploadPhase::Offering { .. } => None,
        };
        match sending {
            Some(index) => match ev {
                UploadEvent::Chunk(data) => if data.len() == 0 {
                    self.answer(200)
                } else if data.len() > CHUNK_SIZE || index == u64::MAX {
                    self.answer(500)
                } else {
                    self.move_to(UploadPhase::Offering { index, data });
                    self.offer()
                },
                UploadEvent::FileEnd => self.answer(200),
                _ => self.answer(500),
            },
            None => {
                let index: u64 = match &self.phase {
                    UploadPhase::Offering { index, .. } => *index,
                    _ => 0,
                };
                match ev {
                    UploadEvent::Offered(Offer::Sent) => {
                        self.move_to(UploadPhase::Sending(index + 1));
                        UploadAction::ReadChunk(CHUNK_SIZE)
                    },
                    UploadEvent::Offered(Offer::Full) => UploadAction::Wait,
                    UploadEvent::Ready => self.offer(),
                    _ => self.answer(500),
                }
            },
        }
    }
}

impl Upload {
    /// Takes note that the body is complete.
    pub fn body_ended(&mut self, state: &SharedState) -> (a: UploadAction)
        ensures
            (final(self)@, a@) == upload_step(
                old(self)@,
                UploadEventView::BodyEnd {
                    connection: state@.connection(old(self)@.session_id),
                },
            ),
    {
        let connection = state.agent_connection(self.session_id.as_str());
        self.step(UploadEvent::BodyEnd { connection })
    }

    /// Offers a message to the agent's connection, and takes note of what came of it.
    pub fn offer_to(&mut self, state: &mut SharedState, m: Json) -> (a: UploadAction)
        ensures
            ({
                let (w, offer) = old(state)@.offered(
                    old(self)@.session_id,
                    old(self)@.connection,
                    m@,
                );
                &&& final(state)@ == w
                &&& (final(self)@, a@) == upload_step(
                    old(self)@,
                    UploadEventView::Offered(offer),
                )
            }),
    {
        let offer = state.offer_to_agent(self.session_id.as_str(), self.connection, m);
        self.step(UploadEvent::Offered(offer))
    }
}

// ---- laws ----
/// An upload after some events.
pub open spec fn after(v: UploadView, evs: Seq<UploadEventView>) -> UploadView
    decreases evs.len(),
{
    if evs.len() == 0 {
        v
    } else {
        upload_step(after(v, evs.drop_last()), evs.last()).0
    }
}

/// The chunks that the agent took in the course of some events.
pub open spec fn taken(v: UploadView, evs: Seq<UploadEventView>) -> Seq<Seq<u8>>
    decreases evs.len(),
{
    if evs.len() == 0 {
        Seq::empty()
    } else {
        let before = taken(v, evs.drop_last());
        match (after(v, evs.drop_last()).phase, evs.last()) {
            (
                UploadPhaseView::Offering { data, .. },
                UploadEventView::Offered(Offer::Sent),
            ) => before.push(data),
            _ => before,
        }
    }
}

/// The messages that the agent took in the course of some events.
pub open spec fn sent(v: UploadView, evs: Seq<UploadEventView>) -> Seq<JsonView>
    decreases evs.len(),
{
    if evs.len() == 0 {
        Seq::empty()
    } else {
        let before = sent(v, evs.drop_last());
        let w = after(v, evs.drop_last());
        match (w.phase, evs.last()) {
            (
                UploadPhaseView::Offering { index, data },
                UploadEventView::Offered(Offer::Sent),
            ) => before.push(w.doc(index as nat, data)),
            _ => before,
        }
    }
}

/// How many chunks an upload counts as sent.
pub open spec fn sent_count(v: UploadView) -> nat {
    match v.phase {
        UploadPhaseView::Sending(i) => i as nat,
        UploadPhaseView::Offering { index, .. } => index as nat,
        _ => 0,
    }
}

/// Whatever happens to an upload, the messages that its agent takes carry what was read of the file,
/// in order, numbered from 0, each with the count of chunks that the received bytes have, and for the
/// path that was asked for. While the body comes, nothing is sent.
pub proof fn messages_are_numbered(v: UploadView, evs: Seq<UploadEventView>)
    requires
        v.phase is Receiving,
    ensures
        ({
            let w = after(v, evs);
            &&& w.session_id == v.session_id && w.upload_id == v.upload_id && w.path == v.path
            &&& sent(v, evs).len() == taken(v, evs).len()
            &&& w.phase is Receiving ==> sent(v, evs).len() == 0
            &&& w.phase is Sending || w.phase is Offering ==> sent(v, evs).len() == sent_count(w)
            &&& w.phase is Offering ==> sent_count(w) < u64::MAX
            &&& forall|j: int|
                0 <= j < sent(v, evs).len() ==> #[trigger] sent(v, evs)[j] == w.doc(
                    j as nat,
                    taken(v, evs)[j],
                )
        }),
    decreases evs.len(),
{
    if evs.len() > 0 {
        messages_are_numbered(v, evs.drop_last());
        let u = after(v, evs.drop_last());
        let w = after(v, evs);
        let before = sent(v, evs.drop_last());
        if !(u.phase is Receiving) {
            assert(w.received == u.received);
            assert forall|j: nat, d: Seq<u8>| #[trigger] w.doc(j, d) == u.doc(j, d) by {}
        }
        assert forall|j: int| 0 <= j < sent(v, evs).len() implies #[trigger] sent(v, evs)[j]
            == w.doc(j as nat, taken(v, evs)[j]) by {
            if j < before.len() {
                assert(before[j] == u.doc(j as nat, taken(v, evs.drop_last())[j]));
            }
        }
    }
}

/// Whether the body is complete with the agent there.
pub open spec fn finds_agent(ev: UploadEventView) -> bool {
    ev matches UploadEventView::BodyEnd { connection: Some(_) }
}

/// Whether the body was complete with the agent there.
pub open spec fn reached_agent(evs: Seq<UploadEventView>) -> bool {
    exists|i: int| 0 <= i < evs.len() && finds_agent(#[trigger] evs[i])
}

/// An upload that is too large, and one whose body never was complete with the agent there, sends the
/// agent nothing, and is not answered as done.
pub proof fn refused_upload_sends_nothing(v: UploadView, evs: Seq<UploadEventView>)
    requires
        v.phase is Receiving,
        after(v, evs).phase == UploadPhaseView::Answered(413) || !reached_agent(evs),
    ensures
        sent(v, evs) == Seq::<JsonView>::empty(),
        after(v, evs).phase != UploadPhaseView::Answered(200),
    decreases evs.len(),
{
    if evs.len() > 0 {
        let init = evs.drop_last();
        let u = after(v, init);
        messages_are_numbered(v, init);
        if !reached_agent(evs) {
            assert(!reached_agent(init)) by {
                if reached_agent(init) {
                    let i = choose|i: int|
                        0 <= i < init.len() && finds_agent(#[trigger] init[i]);
                    assert(evs[i] == init[i]);
                }
            }
            assert(evs[evs.len() - 1] == evs.last());
            refused_upload_sends_nothing(v, init);
            lemma_before_agent(v, init);
        } else if u.phase == UploadPhaseView::Answered(413) {
            refused_upload_sends_nothing(v, init);
        }
    }
}

proof fn lemma_before_agent(v: UploadView, evs: Seq<UploadEventView>)
    requires
        v.phase is Receiving,
        !reached_agent(evs),
    ensures
        after(v, evs).phase is Receiving || after(v, evs).phase is Answered,
    decreases evs.len(),
{
    if evs.len() > 0 {
        let init = evs.drop_last();
        assert(!reached_agent(init)) by {
            if reached_agent(init) {
                let i = choose|i: int| 0 <= i < init.len() && finds_agent(#[trigger] init[i]);
                assert(evs[i] == init[i]);
            }
        }
        assert(evs[evs.len() - 1] == evs.last());
        lemma_before_agent(v, init);
    }
}

proof fn lemma_events_concat(v: UploadView, a: Seq<UploadEventView>, b: Seq<UploadEventView>)
    ensures
        after(v, a + b) == after(after(v, a), b),
        sent(v, a + b) == sent(v, a) + sent(after(v, a), b),
    decreases b.len(),
{
    if b.len() == 0 {
        assert(a + b =~= a);
        assert(sent(v, a) + Seq::<JsonView>::empty() =~= sent(v, a));
    } else {
        lemma_events_concat(v, a, b.drop_last());
        assert((a + b).drop_last() =~= a + b.drop_last());
        assert((a + b).last() == b.last());
        let w = after(after(v, a), b.drop_last());
        match (w.phase, b.last()) {
            (
                UploadPhaseView::Offering { index, data },
                UploadEventView::Offered(Offer::Sent),
            ) => {
                let d = w.doc(index as nat, data);
                assert((sent(v, a) + sent(after(v, a), b.drop_last())).push(d) =~= sent(v, a)
                    + sent(after(v, a), b.drop_last()).push(d));
            },
            _ => {},
        }
    }
}

/// The pieces of a body, as they come.
pub open spec fn body_events(pieces: Seq<usize>) -> Seq<UploadEventView> {
    pieces.map_values(|n: usize| UploadEventView::Piece(n))
}

/// How many bytes pieces have together.
pub open spec fn total_size(pieces: Seq<usize>) -> nat
    decreases pieces.len(),
{
    if pieces.len() == 0 {
        0
    } else {
        total_size(pieces.drop_last()) + pieces.last() as nat
    }
}

/// A body within the limit is received, however it is cut; one over the limit is answered with 413.
/// Nothing is sent either way.
pub proof fn body_is_measured(v: UploadView, pieces: Seq<usize>)
    requires
        v.phase is Receiving,
        v.received == 0,
    ensures
        sent(v, body_events(pieces)) == Seq::<JsonView>::empty(),
        total_size(pieces) <= v.limit ==> after(v, body_events(pieces)) == (UploadView {
            received: total_size(pieces) as u64,
            ..v
        }),
        total_size(pieces) > v.limit ==> after(v, body_events(pieces)).phase
            == UploadPhaseView::Answered(413),
    decreases pieces.len(),
{
    if pieces.len() > 0 {
        let init = pieces.drop_last();
        body_is_measured(v, init);
        assert(body_events(pieces).drop_last() =~= body_events(init));
        assert(body_events(pieces).last() == UploadEventView::Piece(pieces.last()));
    }
}

/// A body within the limit whose agent is not there is answered with 500, and nothing is sent.
pub proof fn upload_needs_agent(v: UploadView, pieces: Seq<usize>)
    requires
        v.phase is Receiving,
        v.received == 0,
        total_size(pieces) <= v.limit,
    ensures
        ({
            let evs = body_events(pieces).push(UploadEventView::BodyEnd { connection: None });
            &&& after(v, evs).phase == UploadPhaseView::Answered(500)
            &&& sent(v, evs) == Seq::<JsonView>::empty()
        }),
{
    body_is_measured(v, pieces);
    let evs = body_events(pieces).push(UploadEventView::BodyEnd { connection: None });
    assert(evs.drop_last() =~= body_events(pieces));
}

/// An offered chunk that finds no room so many times, and is offered again each time.
pub open spec fn wait_events(n: nat) -> Seq<UploadEventView>
    decreases n,
{
    if n == 0 {
        Seq::empty()
    } else {
        wait_events((n - 1) as nat).push(UploadEventView::Offered(Offer::Full)).push(
            UploadEventView::Ready,
        )
    }
}

/// Waiting for room changes nothing: the same message is offered again, and no other is sent.
pub proof fn waiting_changes_nothing(v: UploadView, n: nat)
    requires
        v.phase is Offering,
    ensures
        after(v, wait_events(n)) == v,
        sent(v, wait_events(n)) == Seq::<JsonView>::empty(),
        upload_step(v, UploadEventView::Offered(Offer::Full)) == (v, UploadActionView::Wait),
        v.phase matches UploadPhaseView::Offering { index, data } ==> upload_step(
            v,
            UploadEventView::Ready,
        ) == (v, UploadActionView::Offer(v.doc(index as nat, data))),
    decreases n,
{
    if n > 0 {
        let before = wait_events((n - 1) as nat);
        let mid = before.push(UploadEventView::Offered(Offer::Full));
        let all = wait_events(n);
        waiting_changes_nothing(v, (n - 1) as nat);
        assert(all.drop_last() =~= mid);
        assert(mid.drop_last() =~= before);
        assert(after(v, mid) == v);
        assert(sent(v, mid) == sent(v, before));
    }
}

/// The first `n` chunks of a file are read and taken, chunk `i` once it found no room `waits[i]`
/// times.
pub open spec fn chunk_events(data: Seq<u8>, waits: Seq<nat>, n: nat) -> Seq<UploadEventView>
    decreases n,
{
    if n == 0 {
        Seq::empty()
    } else {
        let i = (n - 1) as nat;
        (chunk_events(data, waits, i).push(UploadEventView::Chunk(chunk(data, i))) + wait_events(
            waits[i as int],
        )).push(UploadEventView::Offered(Offer::Sent))
    }
}

/// The messages that carry the first `n` chunks of a file.
pub open spec fn chunk_docs(v: UploadView, data: Seq<u8>, n: nat) -> Seq<JsonView> {
    Seq::new(n, |i: int| v.doc(i as nat, chunk(data, i as nat)))
}

proof fn lemma_chunk_events(v: UploadView, data: Seq<u8>, waits: Seq<nat>, n: nat)
    requires
        v.phase == UploadPhaseView::Sending(0),
        n <= chunk_count(data.len()),
        data.len() <= u64::MAX,
    ensures
        after(v, chunk_events(data, waits, n)) == v.in_phase(UploadPhaseView::Sending(n as u64)),
        sent(v, chunk_events(data, waits, n)) == chunk_docs(v, data, n),
    decreases n,
{
    if n == 0 {
        assert(chunk_docs(v, data, 0) =~= Seq::<JsonView>::empty());
    } else {
        let i = (n - 1) as nat;
        lemma_chunk_events(v, data, waits, i);
        chunks_make_the_file(data, i);
        lemma_count_fits(data.len());
        let c = chunk(data, i);
        let start = chunk_events(data, waits, i);
        let read = start.push(UploadEventView::Chunk(c));
        let waited = read + wait_events(waits[i as int]);
        let all = chunk_events(data, waits, n);
        assert(read.drop_last() =~= start);
        let w = v.in_phase(UploadPhaseView::Offering { index: i as u64, data: c });
        assert(after(v, read) == w);
        assert(sent(v, read) == sent(v, start));
        lemma_events_concat(v, read, wait_events(waits[i as int]));
        waiting_changes_nothing(w, waits[i as int]);
        assert(sent(v, waited) =~= sent(v, start));
        assert(all.drop_last() =~= waited);
        assert(w.doc(i, c) == v.doc(i, c));
        assert(sent(v, all) =~= chunk_docs(v, data, n));
    }
}

proof fn lemma_count_fits(size: nat)
    requires
        size <= u64::MAX,
    ensures
        chunk_count(size) < u64::MAX,
{
    assert(chunk_count(size) < u64::MAX) by (nonlinear_arith)
        requires
            chunk_count(size) == (size + 262144 - 1) as nat / 262144,
            size <= 0xffff_ffff_ffff_ffff,
    ;
}

/// An upload whose connection has ended, or been replaced by another, ends: the chunk that is offered
/// is not sent, the relay stays as it is, and the upload is answered with 500, whatever happens to it
/// afterwards.
pub proof fn replaced_connection_ends_upload(
    w: RelayView,
    u: UploadView,
    evs: Seq<UploadEventView>,
)
    requires
        u.phase is Offering,
        w.connection(u.session_id) != Some(u.connection),
    ensures
        ({
            let (index, data) = (u.phase->index, u.phase->data);
            let gone = UploadEventView::Offered(Offer::Gone);
            &&& w.offered(u.session_id, u.connection, u.doc(index as nat, data)) == (w, Offer::Gone)
            &&& upload_step(u, gone) == u.answered(500)
            &&& after(u.answered(500).0, evs) == u.answered(500).0
            &&& sent(u.answered(500).0, evs) == Seq::<JsonView>::empty()
        }),
    decreases evs.len(),
{
    if evs.len() > 0 {
        replaced_connection_ends_upload(w, u, evs.drop_last());
    }
}

/// An agent that connects again does so by another connection than any before, so that an upload that
/// began before is not offered to it.
pub proof fn reconnect_replaces_connection(
    v: RelayView,
    who: Seq<char>,
    sid: Seq<char>,
    last_event_id: Option<Seq<char>>,
    now: u128,
    before: u64,
    m: JsonView,
)
    requires
        before <= v.connections < u64::MAX,
        agent_events(v, who, Some(sid), last_event_id, now).1 is Open,
    ensures
        ({
            let w = agent_events(v, who, Some(sid), last_event_id, now).0;
            &&& w.connection(sid) == Some(w.connections)
            &&& w.connections == v.connections + 1
            &&& w.connection(sid) != Some(before)
            &&& w.offered(sid, before, m) == (w, Offer::Gone)
        }),
{
}

/// What happens to an upload that goes well: its body comes in pieces, the agent is there, and each
/// chunk of the file is read and taken, maybe after a wait.
pub open spec fn upload_events(
    pieces: Seq<usize>,
    data: Seq<u8>,
    waits: Seq<nat>,
    connection: u64,
) -> Seq<UploadEventView> {
    (body_events(pieces).push(UploadEventView::BodyEnd { connection: Some(connection) })
        + chunk_events(data, waits, chunk_count(data.len()))).push(UploadEventView::FileEnd)
}

/// Whether `docs` carry the chunks of a file to a path.
pub open spec fn carry(
    docs: Seq<JsonView>,
    data: Seq<u8>,
    sid: Seq<char>,
    upload_id: Seq<char>,
    path: Seq<char>,
    contents: Seq<Seq<char>>,
) -> bool {
    &&& docs.len() == chunk_count(data.len())
    &&& contents.len() == docs.len()
    &&& forall|i: int|
        0 <= i < docs.len() ==> #[trigger] docs[i] == chunk_doc(
            sid,
            upload_id,
            path,
            contents[i],
            i as nat,
            docs.len(),
        ) && base64_bytes(contents[i]) == Some(chunk(data, i as nat))
}

/// An upload within the limit whose agent is there is answered with 200, and the agent takes exactly
/// the messages that carry the chunks of the file, in order.
pub proof fn upload_carries_the_file(
    v: UploadView,
    pieces: Seq<usize>,
    data: Seq<u8>,
    waits: Seq<nat>,
    connection: u64,
)
    requires
        v.phase is Receiving,
        v.received == 0,
        total_size(pieces) == data.len(),
        data.len() <= v.limit,
        forall|i: nat|
            i < chunk_count(data.len()) ==> base64_bytes(#[trigger] base64_text(chunk(data, i)))
                == Some(chunk(data, i)),
    ensures
        ({
            let evs = upload_events(pieces, data, waits, connection);
            &&& after(v, evs).phase == UploadPhaseView::Answered(200)
            &&& sent(v, evs).len() == chunk_count(data.len())
            &&& carry(
                sent(v, evs),
                data,
                v.session_id,
                v.upload_id,
                v.path,
                Seq::new(
                    chunk_count(data.len()),
                    |i: int| base64_text(chunk(data, i as nat)),
                ),
            )
        }),
{
    let n = chunk_count(data.len());
    let body = body_events(pieces);
    let done = body.push(UploadEventView::BodyEnd { connection: Some(connection) });
    let chunks = chunk_events(data, waits, n);
    let evs = upload_events(pieces, data, waits, connection);
    body_is_measured(v, pieces);
    assert(done.drop_last() =~= body);
    let w = UploadView {
        received: data.len() as u64,
        ..v.sending_to(connection)
    };
    assert(after(v, done) == w);
    assert(sent(v, done) =~= Seq::<JsonView>::empty());
    lemma_chunk_events(w, data, waits, n);
    lemma_events_concat(v, done, chunks);
    assert(evs.drop_last() =~= done + chunks);
    assert(sent(v, evs) =~= chunk_docs(w, data, n));
}

} // verus!
