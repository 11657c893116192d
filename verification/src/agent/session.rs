//! A session of the agent: its tabs, and what it does with each message from the relay.
use vstd::prelude::*;

use crate::agent::fs::{
    decode_b64, done, download_arrives_whole, downloaded, encode_b64, fs_done, read_chunk,
    read_file, read_result, ReadOutcome,
};
use crate::json::{items_view, lemma_items_view, Json, JsonView};
use crate::outside::{base64_bytes, base64_text, is_uuid, new_uuid};
use crate::payload::{
    ExecResultPayload, ExecResultView, FsResultPayload, FsResultView, McpResultPayload,
    McpResultView,
};
use crate::proto::{message, read_only_type, requires_write, Message, MessageView};
use crate::relay::upload::{chunk, chunk_count, chunks_make_the_file, count_chunks, CHUNK_SIZE};
use crate::seqs::lemma_filter;
use crate::strmap::{drop_key, has_key, lemma_lookup_has_key, lookup, put, StrMap};
use crate::text::{decimal, decimal_u64, join2, opt_text, str_eq};

verus! {

/// How many bytes of a tab's output are kept for those who come later.
pub const TAB_BUFFER: usize = 65536;

/// A tab: a shell with what it wrote last.
pub struct TabState {
    pub title: String,
    pub output_buf: Vec<u8>,
}

pub struct TabView {
    pub title: Seq<char>,
    pub output: Seq<u8>,
}

impl View for TabState {
    type V = TabView;

    open spec fn view(&self) -> TabView {
        TabView { title: self.title@, output: self.output_buf@ }
    }
}

/// The tabs by id, in the order they were opened.
pub type Tabs = Seq<(Seq<char>, TabView)>;

/// The last `TAB_BUFFER` bytes.
pub open spec fn last_bytes(data: Seq<u8>) -> Seq<u8> {
    if data.len() > TAB_BUFFER {
        data.skip(data.len() - TAB_BUFFER)
    } else {
        data
    }
}

/// Keeps the last `TAB_BUFFER` bytes.
pub fn keep_last(buf: &Vec<u8>, data: &Vec<u8>) -> (r: Vec<u8>)
    requires
        buf@.len() <= TAB_BUFFER,
    ensures
        r@ == last_bytes(buf@ + data@),
        r@.len() <= TAB_BUFFER,
{
    let ghost all = buf@ + data@;
    let mut r: Vec<u8> = Vec::new();
    if data.len() >= TAB_BUFFER {
        let from: usize = data.len() - TAB_BUFFER;
        let mut i: usize = from;
        while i < data.len()
            invariant
                from <= i <= data@.len(),
                r@ == data@.subrange(from as int, i as int),
            decreases data@.len() - i,
        {
            r.push(data[i]);
            assert(data@.subrange(from as int, i as int).push(data@[i as int]) =~= data@.subrange(
                from as int,
                i + 1,
            ));
            i = i + 1;
        }
        assert(r@ =~= last_bytes(all));
    } else {
        let total: usize = buf.len() + data.len();
        let skip: usize = if total > TAB_BUFFER {
            total - TAB_BUFFER
        } else {
            0
        };
        let mut i: usize = skip;
        while i < buf.len()
            invariant
                skip <= i,
                skip <= buf@.len(),
                i <= buf@.len(),
                r@ == buf@.subrange(skip as int, i as int),
            decreases buf@.len() - i,
        {
            r.push(buf[i]);
            assert(buf@.subrange(skip as int, i as int).push(buf@[i as int]) =~= buf@.subrange(
                skip as int,
                i + 1,
            ));
            i = i + 1;
        }
        let ghost kept = r@;
        let mut k: usize = 0;
        while k < data.len()
            invariant
                k <= data@.len(),
                r@ == kept + data@.take(k as int),
            decreases data@.len() - k,
        {
            r.push(data[k]);
            assert(data@.take(k as int).push(data@[k as int]) =~= data@.take(k + 1));
            k = k + 1;
        }
        assert(r@ =~= last_bytes(all));
    }
    r
}

/// What is kept of a tab's output is the end of all that it wrote, however it came.
pub proof fn last_bytes_of_pieces(a: Seq<u8>, b: Seq<u8>, c: Seq<u8>)
    ensures
        last_bytes(last_bytes(a + b) + c) == last_bytes(a + b + c),
        last_bytes(a).len() <= TAB_BUFFER,
{
    assert(last_bytes(last_bytes(a + b) + c) =~= last_bytes(a + b + c));
}

// ---- messages ----
/// The list of tabs, as browsers get it.
pub open spec fn tab_doc(tab: (Seq<char>, TabView), active: Seq<char>) -> JsonView {
    JsonView::object().with_str("tab_id"@, tab.0).with_str("title"@, tab.1.title).with(
        "active"@,
        JsonView::Bool(tab.0 == active),
    )
}

/// The tabs of a session; for one user where the user is known.
pub open spec fn tab_list(
    sid: Seq<char>,
    tabs: Tabs,
    active: Seq<char>,
    user: Option<Seq<char>>,
) -> MessageView {
    message(
        "session:tab_list"@,
        sid,
        JsonView::object().with(
            "tabs"@,
            JsonView::Arr(tabs.map_values(|t: (Seq<char>, TabView)| tab_doc(t, active))),
        ).with_opt_str("_target_user_id"@, user),
    )
}

/// That a tab was switched to; for one user where the user is known.
pub open spec fn tab_switched(
    sid: Seq<char>,
    tab: Seq<char>,
    user: Option<Seq<char>>,
) -> MessageView {
    message(
        "session:tab_switched"@,
        sid,
        JsonView::object().with_str("tab_id"@, tab).with_opt_str("_target_user_id"@, user),
    )
}

/// Output of a tab, in base64; for one user where the user is known.
pub open spec fn output_message(
    sid: Seq<char>,
    tab: Seq<char>,
    data: Seq<u8>,
    user: Option<Seq<char>>,
) -> MessageView {
    message(
        "terminal:output"@,
        sid,
        JsonView::object().with_str("data"@, base64_text(data)).with_str(
            "tab_id"@,
            tab,
        ).with_opt_str("_target_user_id"@, user),
    )
}

fn switched_message(sid: &str, tab: &str, user: &Option<String>) -> (r: Message)
    ensures
        r@ == tab_switched(sid@, tab@, opt_text(*user)),
{
    Message::new(
        "session:tab_switched",
        sid,
        Json::object().with_str("tab_id", tab).with_opt_str("_target_user_id", user),
    )
}

/// Makes the message that carries output of a tab. Decoding its data gives the bytes back.
pub fn make_output_message(sid: &str, tab: &str, data: &Vec<u8>, user: &Option<String>) -> (r:
    Message)
    requires
        crate::outside::base64_size(data@.len()) <= isize::MAX,
    ensures
        r@ == output_message(sid@, tab@, data@, opt_text(*user)),
        base64_bytes(base64_text(data@)) == Some(data@),
{
    let encoded = encode_b64(data.as_slice());
    Message::new(
        "terminal:output",
        sid,
        Json::object().with_str("data", encoded.as_str()).with_str("tab_id", tab).with_opt_str(
            "_target_user_id",
            user,
        ),
    )
}

/// That the agent takes no messages that change something.
pub open spec fn denied(sid: Seq<char>) -> MessageView {
    message(
        "error"@,
        sid,
        JsonView::object().with_str("code"@, "PERMISSION_DENIED"@).with_str(
            "message"@,
            "Agent is read-only, write-type messages rejected"@,
        ),
    )
}

fn denied_message(sid: &str) -> (r: Message)
    ensures
        r@ == denied(sid@),
{
    Message::new(
        "error",
        sid,
        Json::object().with_str("code", "PERMISSION_DENIED").with_str(
            "message",
            "Agent is read-only, write-type messages rejected",
        ),
    )
}

/// What came of a file operation, for the request that asked for it.
pub open spec fn fs_reply(
    sid: Seq<char>,
    result: FsResultView,
    request_id: Option<Seq<char>>,
) -> MessageView {
    message("fs:result"@, sid, result.json().with_opt_str("_mcp_request_id"@, request_id))
}

/// Makes the reply to a file operation.
pub fn fs_reply_message(sid: &str, result: &FsResultPayload, request_id: &Option<String>) -> (r:
    Message)
    ensures
        r@ == fs_reply(sid@, result@, opt_text(*request_id)),
{
    Message::new(
        "fs:result",
        sid,
        result.to_json().with_opt_str("_mcp_request_id", request_id),
    )
}

/// The bytes of a file that message `i` of the answer to a read carries: all of them where they fit
/// into one chunk.
pub open spec fn read_piece(data: Seq<u8>, i: nat) -> Seq<u8> {
    if data.len() <= CHUNK_SIZE {
        data
    } else {
        chunk(data, i)
    }
}

/// The reply that carries one of the chunks of a file.
pub open spec fn chunk_reply(
    sid: Seq<char>,
    path: Seq<char>,
    content: Seq<char>,
    index: nat,
    total: nat,
    request_id: Option<Seq<char>>,
) -> MessageView {
    message(
        "fs:result"@,
        sid,
        (FsResultView { content: Some(content), ..fs_done(path) }).json().with(
            "chunk_index"@,
            JsonView::Int(index as int),
        ).with("total_chunks"@, JsonView::Int(total as int)).with_opt_str(
            "_mcp_request_id"@,
            request_id,
        ),
    )
}

/// The messages that answer a request to read a file: one, or for a file that does not fit into one
/// chunk a message for each of its chunks.
pub open spec fn read_replies(
    sid: Seq<char>,
    path: Seq<char>,
    outcome: ReadOutcome,
    request_id: Option<Seq<char>>,
) -> Seq<MessageView> {
    match outcome {
        ReadOutcome::Data(data) => if data@.len() > CHUNK_SIZE {
            Seq::new(
                chunk_count(data@.len()),
                |i: int|
                    chunk_reply(
                        sid,
                        path,
                        base64_text(chunk(data@, i as nat)),
                        i as nat,
                        chunk_count(data@.len()),
                        request_id,
                    ),
            )
        } else {
            seq![fs_reply(sid, read_result(path, outcome), request_id)]
        },
        _ => seq![fs_reply(sid, read_result(path, outcome), request_id)],
    }
}

fn is_large(outcome: &ReadOutcome) -> (r: bool)
    ensures
        r == (outcome matches ReadOutcome::Data(data) && data@.len() > CHUNK_SIZE),
{
    match outcome {
        ReadOutcome::Data(data) => data.len() > CHUNK_SIZE,
        _ => false,
    }
}

/// Makes message `index` of the answer to a request to read a file, if the answer has so many.
/// Decoding its content gives the bytes back that it carries.
pub fn read_reply(
    sid: &str,
    path: &str,
    outcome: &ReadOutcome,
    index: usize,
    request_id: &Option<String>,
) -> (r: Option<Message>)
    ensures
        ({
            let all = read_replies(sid@, path@, *outcome, opt_text(*request_id));
            match r {
                Some(m) => index < all.len() && m@ == all[index as int],
                None => index >= all.len(),
            }
        }),
        r is Some && outcome is Data ==> base64_bytes(
            base64_text(read_piece(outcome->Data_0@, index as nat)),
        ) == Some(read_piece(outcome->Data_0@, index as nat)),
{
    if !is_large(outcome) {
        return if index == 0 {
            Some(fs_reply_message(sid, &read_file(path, outcome), request_id))
        } else {
            None
        };
    }
    match outcome {
        ReadOutcome::Data(data) => match read_chunk(data.as_slice(), index) {
            Some(content) => {
                let mut result = done(path);
                result.content = Some(content);
                Some(
                    Message::new(
                        "fs:result",
                        sid,
                        result.to_json().with("chunk_index", Json::Int(index as i128)).with(
                            "total_chunks",
                            Json::Int(count_chunks(data.len() as u64) as i128),
                        ).with_opt_str("_mcp_request_id", request_id),
                    ),
                )
            },
            None => None,
        },
        _ => None,
    }
}

/// The contents that messages carry.
pub open spec fn contents_of(messages: Seq<MessageView>) -> Seq<Seq<char>> {
    messages.map_values(|m: MessageView| m.payload.str_or("content"@, Seq::empty()))
}

/// A file that is read arrives whole, and no message carries more than a chunk of it: the contents of
/// the messages that answer the read, decoded and joined in order, are the file, and each decodes to
/// at most `CHUNK_SIZE` bytes. Where there are several, each tells its number and their count.
pub proof fn read_answer_carries_the_file(
    sid: Seq<char>,
    path: Seq<char>,
    data: Vec<u8>,
    request_id: Option<Seq<char>>,
    i: nat,
)
    requires
        forall|k: nat|
            k < read_replies(sid, path, ReadOutcome::Data(data), request_id).len()
                ==> base64_bytes(base64_text(#[trigger] read_piece(data@, k))) == Some(
                read_piece(data@, k),
            ),
    ensures
        ({
            let all = read_replies(sid, path, ReadOutcome::Data(data), request_id);
            &&& downloaded(contents_of(all)) == data@
            &&& i < all.len() ==> {
                &&& base64_bytes(contents_of(all)[i as int]) == Some(read_piece(data@, i))
                &&& read_piece(data@, i).len() <= CHUNK_SIZE
            }
            &&& 1 < all.len() <= u64::MAX && i < all.len() ==> {
                &&& all[i as int].payload.u64_field("chunk_index"@) == Some(i as u64)
                &&& all[i as int].payload.u64_field("total_chunks"@) == Some(all.len() as u64)
            }
        }),
{
    let all = read_replies(sid, path, ReadOutcome::Data(data), request_id);
    let contents = contents_of(all);
    let n = chunk_count(data@.len());
    if data@.len() > CHUNK_SIZE {
        assert forall|k: int| 0 <= k < contents.len() implies base64_bytes(#[trigger] contents[k])
            == Some(chunk(data@, k as nat)) by {
            lemma_chunk_reply(
                sid,
                path,
                base64_text(chunk(data@, k as nat)),
                k as nat,
                n,
                request_id,
            );
            assert(read_piece(data@, k as nat) == chunk(data@, k as nat));
        }
        download_arrives_whole(data@, contents);
        chunks_make_the_file(data@, i);
        lemma_chunk_reply(sid, path, base64_text(chunk(data@, i)), i, n, request_id);
    } else {
        lemma_whole_reply(sid, path, base64_text(data@), request_id);
        assert(read_piece(data@, 0) == data@);
        assert(contents =~= seq![base64_text(data@)]);
        assert(contents.drop_last() =~= Seq::<Seq<char>>::empty());
        assert(contents.last() == base64_text(data@));
        assert(downloaded(contents.drop_last()) =~= Seq::<u8>::empty());
        assert(Seq::<u8>::empty() + data@ =~= data@);
    }
}

proof fn lemma_chunk_reply(
    sid: Seq<char>,
    path: Seq<char>,
    content: Seq<char>,
    index: nat,
    total: nat,
    request_id: Option<Seq<char>>,
)
    ensures
        ({
            let p = chunk_reply(sid, path, content, index, total, request_id).payload;
            &&& p.str_field("content"@) == Some(content)
            &&& index <= u64::MAX ==> p.u64_field("chunk_index"@) == Some(index as u64)
            &&& total <= u64::MAX ==> p.u64_field("total_chunks"@) == Some(total as u64)
        }),
{
    reveal_strlit("content");
    reveal_strlit("path");
    reveal_strlit("chunk_index");
    reveal_strlit("total_chunks");
    reveal_strlit("_mcp_request_id");
    assert("content"@.len() != "path"@.len());
    assert("content"@.len() != "chunk_index"@.len());
    assert("content"@.len() != "total_chunks"@.len());
    assert("content"@.len() != "_mcp_request_id"@.len());
    assert("chunk_index"@.len() != "total_chunks"@.len());
    assert("chunk_index"@.len() != "_mcp_request_id"@.len());
    assert("total_chunks"@.len() != "_mcp_request_id"@.len());
}

proof fn lemma_whole_reply(
    sid: Seq<char>,
    path: Seq<char>,
    content: Seq<char>,
    request_id: Option<Seq<char>>,
)
    ensures
        fs_reply(
            sid,
            FsResultView { content: Some(content), ..fs_done(path) },
            request_id,
        ).payload.str_field("content"@) == Some(content),
{
    reveal_strlit("content");
    reveal_strlit("path");
    reveal_strlit("_mcp_request_id");
    assert("content"@.len() != "path"@.len());
    assert("content"@.len() != "_mcp_request_id"@.len());
}

/// What came of a command, for the request that asked for it.
pub open spec fn command_reply(
    sid: Seq<char>,
    result: McpResultView,
    request_id: Option<Seq<char>>,
) -> MessageView {
    message("mcp:result"@, sid, result.json().with_opt_str("_mcp_request_id"@, request_id))
}

/// Makes the reply to a command.
pub fn command_reply_message(
    sid: &str,
    result: &McpResultPayload,
    request_id: &Option<String>,
) -> (r: Message)
    ensures
        r@ == command_reply(sid@, result@, opt_text(*request_id)),
{
    Message::new(
        "mcp:result",
        sid,
        result.to_json().with_opt_str("_mcp_request_id", request_id),
    )
}

/// What came of a request about a background command.
pub open spec fn exec_reply(
    sid: Seq<char>,
    result: ExecResultView,
    request_id: Option<Seq<char>>,
) -> MessageView {
    message(
        "mcp:exec_result"@,
        sid,
        (ExecResultView { _mcp_request_id: request_id, ..result }).json(),
    )
}

/// Makes the reply to a request about a background command.
pub fn exec_reply_message(
    sid: &str,
    result: ExecResultPayload,
    request_id: &Option<String>,
) -> (r: Message)
    ensures
        r@ == exec_reply(sid@, result@, opt_text(*request_id)),
{
    let mut result = result;
    result._mcp_request_id = crate::text::copy_opt(request_id);
    Message::new("mcp:exec_result", sid, result.to_json())
}

// ---- what a message asks for ----
/// A file operation.
pub enum FsOp {
    List { path: String },
    Read { path: String },
    Write { path: String, content: String },
    Upload { payload: Json },
    Delete { path: String },
    Rename { from: String, to: String },
    Mkdir { path: String },
}

pub enum FsOpView {
    List { path: Seq<char> },
    Read { path: Seq<char> },
    Write { path: Seq<char>, content: Seq<char> },
    Upload { payload: JsonView },
    Delete { path: Seq<char> },
    Rename { from: Seq<char>, to: Seq<char> },
    Mkdir { path: Seq<char> },
}

impl View for FsOp {
    type V = FsOpView;

    open spec fn view(&self) -> FsOpView {
        match self {
            FsOp::List { path } => FsOpView::List { path: path@ },
            FsOp::Read { path } => FsOpView::Read { path: path@ },
            FsOp::Write { path, content } => FsOpView::Write { path: path@, content: content@ },
            FsOp::Upload { payload } => FsOpView::Upload { payload: payload@ },
            FsOp::Delete { path } => FsOpView::Delete { path: path@ },
            FsOp::Rename { from, to } => FsOpView::Rename { from: from@, to: to@ },
            FsOp::Mkdir { path } => FsOpView::Mkdir { path: path@ },
        }
    }
}

/// What the agent is to do.
pub enum AgentAction {
    /// Send a message to the relay.
    Send(Message),
    /// Type into a tab.
    Input { tab_id: String, data: Vec<u8> },
    Resize { tab_id: String, cols: u16, rows: u16 },
    /// Start a shell for a new tab that a user asked for, and report with `tab_opened`.
    OpenTab { tab_id: String, title: String, user: Option<String> },
    /// End the shell of a tab.
    CloseTab { tab_id: String },
    Fs { op: FsOp, request_id: Option<String> },
    /// Run a command.
    Exec { cmd: String, timeout_ms: u64, request_id: Option<String> },
    ExecStart { cmd: String, request_id: Option<String> },
    ExecInput { exec_id: String, data: Vec<u8>, request_id: Option<String> },
    ExecClose { exec_id: String, request_id: Option<String> },
    ExecList { request_id: Option<String> },
}

pub enum AgentActionView {
    Send(MessageView),
    Input { tab_id: Seq<char>, data: Seq<u8> },
    Resize { tab_id: Seq<char>, cols: u16, rows: u16 },
    OpenTab { tab_id: Seq<char>, title: Seq<char>, user: Option<Seq<char>> },
    CloseTab { tab_id: Seq<char> },
    Fs { op: FsOpView, request_id: Option<Seq<char>> },
    Exec { cmd: Seq<char>, timeout_ms: u64, request_id: Option<Seq<char>> },
    ExecStart { cmd: Seq<char>, request_id: Option<Seq<char>> },
    ExecInput { exec_id: Seq<char>, data: Seq<u8>, request_id: Option<Seq<char>> },
    ExecClose { exec_id: Seq<char>, request_id: Option<Seq<char>> },
    ExecList { request_id: Option<Seq<char>> },
}

impl View for AgentAction {
    type V = AgentActionView;

    open spec fn view(&self) -> AgentActionView {
        match self {
            AgentAction::Send(m) => AgentActionView::Send(m@),
            AgentAction::Input { tab_id, data } => AgentActionView::Input {
                tab_id: tab_id@,
                data: data@,
            },
            AgentAction::Resize { tab_id, cols, rows } => AgentActionView::Resize {
                tab_id: tab_id@,
                cols: *cols,
                rows: *rows,
            },
            AgentAction::OpenTab { tab_id, title, user } => AgentActionView::OpenTab {
                tab_id: tab_id@,
                title: title@,
                user: opt_text(*user),
            },
            AgentAction::CloseTab { tab_id } => AgentActionView::CloseTab { tab_id: tab_id@ },
            AgentAction::Fs { op, request_id } => AgentActionView::Fs {
                op: op@,
                request_id: opt_text(*request_id),
            },
            AgentAction::Exec { cmd, timeout_ms, request_id } => AgentActionView::Exec {
                cmd: cmd@,
                timeout_ms: *timeout_ms,
                request_id: opt_text(*request_id),
            },
            AgentAction::ExecStart { cmd, request_id } => AgentActionView::ExecStart {
                cmd: cmd@,
                request_id: opt_text(*request_id),
            },
            AgentAction::ExecInput { exec_id, data, request_id } => AgentActionView::ExecInput {
                exec_id: exec_id@,
                data: data@,
                request_id: opt_text(*request_id),
            },
            AgentAction::ExecClose { exec_id, request_id } => AgentActionView::ExecClose {
                exec_id: exec_id@,
                request_id: opt_text(*request_id),
            },
            AgentAction::ExecList { request_id } => AgentActionView::ExecList {
                request_id: opt_text(*request_id),
            },
        }
    }
}

pub open spec fn actions_view(v: Seq<AgentAction>) -> Seq<AgentActionView> {
    v.map_values(|a: AgentAction| a@)
}

/// The id of the request that waits for what comes of a message.
pub open spec fn request_of(payload: JsonView) -> Option<Seq<char>> {
    payload.str_field("_mcp_request_id"@)
}

fn request_id_of(payload: &Json) -> (r: Option<String>)
    ensures
        opt_text(r) == request_of(payload@),
{
    text_of(payload, "_mcp_request_id")
}

fn text_of(payload: &Json, name: &str) -> (r: Option<String>)
    ensures
        opt_text(r) == payload@.str_field(name@),
{
    match payload.str_field(name) {
        Some(s) => Some(s.to_owned()),
        None => None,
    }
}

/// The file operation that a message asks for.
pub open spec fn fs_op(t: Seq<char>, p: JsonView) -> Option<FsOpView> {
    if t == "fs:list"@ {
        Some(FsOpView::List { path: p.str_or("path"@, "."@) })
    } else if t == "fs:read"@ {
        Some(FsOpView::Read { path: p.str_or("path"@, ""@) })
    } else if t == "fs:write"@ {
        Some(
            FsOpView::Write {
                path: p.str_or("path"@, ""@),
                content: p.str_or("content"@, ""@),
            },
        )
    } else if t == "fs:upload"@ {
        Some(FsOpView::Upload { payload: p })
    } else if t == "fs:delete"@ {
        Some(FsOpView::Delete { path: p.str_or("path"@, ""@) })
    } else if t == "fs:rename"@ {
        Some(FsOpView::Rename { from: p.str_or("from"@, ""@), to: p.str_or("to"@, ""@) })
    } else if t == "fs:mkdir"@ {
        Some(FsOpView::Mkdir { path: p.str_or("path"@, ""@) })
    } else {
        None
    }
}

fn fs_op_of(t: &str, p: &Json) -> (r: Option<FsOp>)
    ensures
        match r {
            Some(op) => fs_op(t@, p@) == Some(op@),
            None => fs_op(t@, p@) is None,
        },
{
    if str_eq(t, "fs:list") {
        Some(FsOp::List { path: p.str_or("path", ".").to_owned() })
    } else if str_eq(t, "fs:read") {
        Some(FsOp::Read { path: p.str_or("path", "").to_owned() })
    } else if str_eq(t, "fs:write") {
        Some(
            FsOp::Write {
                path: p.str_or("path", "").to_owned(),
                content: p.str_or("content", "").to_owned(),
            },
        )
    } else if str_eq(t, "fs:upload") {
        Some(FsOp::Upload { payload: p.copy() })
    } else if str_eq(t, "fs:delete") {
        Some(FsOp::Delete { path: p.str_or("path", "").to_owned() })
    } else if str_eq(t, "fs:rename") {
        Some(
            FsOp::Rename {
                from: p.str_or("from", "").to_owned(),
                to: p.str_or("to", "").to_owned(),
            },
        )
    } else if str_eq(t, "fs:mkdir") {
        Some(FsOp::Mkdir { path: p.str_or("path", "").to_owned() })
    } else {
        None
    }
}

/// How long a command may run where the message does not say, in milliseconds.
pub const DEFAULT_EXEC_MS: u64 = 30000;

/// The bytes of base64 input; none where it is no base64.
pub open spec fn input_bytes(data: Seq<char>) -> Seq<u8> {
    match base64_bytes(data) {
        Some(b) => b,
        None => Seq::empty(),
    }
}

/// What a message about commands asks for.
pub open spec fn exec_action(t: Seq<char>, p: JsonView) -> Option<AgentActionView> {
    if t == "mcp:exec"@ {
        Some(
            AgentActionView::Exec {
                cmd: p.str_or("cmd"@, ""@),
                timeout_ms: match p.u64_field("timeout_ms"@) {
                    Some(n) => n,
                    None => DEFAULT_EXEC_MS,
                },
                request_id: request_of(p),
            },
        )
    } else if t == "mcp:exec_start"@ {
        Some(
            AgentActionView::ExecStart { cmd: p.str_or("cmd"@, ""@), request_id: request_of(p) },
        )
    } else if t == "mcp:exec_input"@ {
        Some(
            AgentActionView::ExecInput {
                exec_id: p.str_or("exec_id"@, ""@),
                data: input_bytes(p.str_or("data_b64"@, ""@)),
                request_id: request_of(p),
            },
        )
    } else if t == "mcp:exec_close"@ {
        Some(
            AgentActionView::ExecClose {
                exec_id: p.str_or("exec_id"@, ""@),
                request_id: request_of(p),
            },
        )
    } else if t == "mcp:exec_list"@ {
        Some(AgentActionView::ExecList { request_id: request_of(p) })
    } else {
        None
    }
}

fn exec_action_of(t: &str, p: &Json) -> (r: Option<AgentAction>)
    ensures
        match r {
            Some(a) => exec_action(t@, p@) == Some(a@),
            None => exec_action(t@, p@) is None,
        },
{
    if str_eq(t, "mcp:exec") {
        let timeout_ms: u64 = match p.u64_field("timeout_ms") {
            Some(n) => n,
            None => DEFAULT_EXEC_MS,
        };
        Some(
            AgentAction::Exec {
                cmd: p.str_or("cmd", "").to_owned(),
                timeout_ms,
                request_id: request_id_of(p),
            },
        )
    } else if str_eq(t, "mcp:exec_start") {
        Some(
            AgentAction::ExecStart {
                cmd: p.str_or("cmd", "").to_owned(),
                request_id: request_id_of(p),
            },
        )
    } else if str_eq(t, "mcp:exec_input") {
        let data = match decode_b64(p.str_or("data_b64", "")) {
            Some(b) => b,
            None => Vec::new(),
        };
        Some(
            AgentAction::ExecInput {
                exec_id: p.str_or("exec_id", "").to_owned(),
                data,
                request_id: request_id_of(p),
            },
        )
    } else if str_eq(t, "mcp:exec_close") {
        Some(
            AgentAction::ExecClose {
                exec_id: p.str_or("exec_id", "").to_owned(),
                request_id: request_id_of(p),
            },
        )
    } else if str_eq(t, "mcp:exec_list") {
        Some(AgentAction::ExecList { request_id: request_id_of(p) })
    } else {
        None
    }
}

// ---- the session ----
/// The tabs of a session, and which of them is active.
pub struct AgentSession {
    session_id: String,
    read_only: bool,
    tabs: StrMap<TabState>,
    active_tab_id: String,
    tab_counter: u32,
}

#[verifier::ext_equal]
pub struct AgentView {
    pub session_id: Seq<char>,
    /// Whether the agent takes no messages that change something.
    pub read_only: bool,
    pub tabs: Tabs,
    pub active: Seq<char>,
    /// How many tabs were opened.
    pub counter: u32,
}

impl View for AgentSession {
    type V = AgentView;

    closed spec fn view(&self) -> AgentView {
        AgentView {
            session_id: self.session_id@,
            read_only: self.read_only,
            tabs: self.tabs.entries(),
            active: self.active_tab_id@,
            counter: self.tab_counter,
        }
    }
}

/// Every tab keeps no more output than is kept.
pub open spec fn tabs_bounded(m: Map<Seq<char>, TabView>) -> bool {
    forall|id: Seq<char>| #[trigger] m.contains_key(id) ==> m[id].output.len() <= TAB_BUFFER
}

/// The title of the tab that was opened as number `n`.
pub open spec fn tab_title(n: u32) -> Seq<char> {
    "Shell "@ + decimal(n as nat)
}

fn title_of(n: u32) -> (r: String)
    ensures
        r@ == tab_title(n),
{
    join2("Shell ", decimal_u64(n as u64).as_str())
}

/// A tab that was just opened.
pub open spec fn new_tab(title: Seq<char>) -> TabView {
    TabView { title, output: Seq::empty() }
}

/// The messages that replay what the tabs wrote; for one user where the user is known.
pub open spec fn replays(
    sid: Seq<char>,
    tabs: Tabs,
    user: Option<Seq<char>>,
) -> Seq<AgentActionView>
    decreases tabs.len(),
{
    if tabs.len() == 0 {
        Seq::empty()
    } else {
        let before = replays(sid, tabs.drop_last(), user);
        let (id, tab) = tabs.last();
        if tab.output.len() == 0 {
            before
        } else {
            before.push(AgentActionView::Send(output_message(sid, id, tab.output, user)))
        }
    }
}

impl AgentView {
    /// A session with its first tab.
    pub open spec fn first(
        session_id: Seq<char>,
        token_type: Seq<char>,
        tab_id: Seq<char>,
    ) -> AgentView {
        AgentView {
            session_id,
            read_only: token_type == "ro"@,
            tabs: seq![(tab_id, new_tab(tab_title(1)))],
            active: tab_id,
            counter: 1,
        }
    }

    pub open spec fn list(self, user: Option<Seq<char>>) -> AgentActionView {
        AgentActionView::Send(tab_list(self.session_id, self.tabs, self.active, user))
    }

    pub open spec fn switched(self, user: Option<Seq<char>>) -> AgentActionView {
        AgentActionView::Send(tab_switched(self.session_id, self.active, user))
    }

    /// The tabs are shown to all users, and the active one to a user.
    pub open spec fn announced(self, user: Option<Seq<char>>) -> Seq<AgentActionView> {
        seq![self.list(None), self.switched(user)]
    }

    /// The tab that a message is about: the one it names, or else the active one.
    pub open spec fn meant_tab(self, p: JsonView) -> Seq<char> {
        p.str_or("tab_id"@, self.active)
    }

    /// A new tab was opened: it is the active one.
    pub open spec fn opened(self, tab_id: Seq<char>, title: Seq<char>) -> AgentView {
        AgentView {
            tabs: put(self.tabs, tab_id, new_tab(title)),
            active: tab_id,
            ..self
        }
    }

    /// A tab was closed. Where it was the active one, the first that is left is active.
    pub open spec fn closed(self, tab_id: Seq<char>) -> AgentView {
        let tabs = drop_key(self.tabs, tab_id);
        AgentView {
            tabs,
            active: if self.active != tab_id {
                self.active
            } else if tabs.len() > 0 {
                tabs[0].0
            } else {
                Seq::empty()
            },
            ..self
        }
    }

    /// A tab wrote something.
    pub open spec fn wrote(self, tab_id: Seq<char>, data: Seq<u8>) -> AgentView {
        match lookup(self.tabs, tab_id) {
            Some(t) => AgentView {
                tabs: put(
                    self.tabs,
                    tab_id,
                    TabView { output: last_bytes(t.output + data), ..t },
                ),
                ..self
            },
            None => self,
        }
    }

    /// What the agent does about a message on terminals and tabs.
    pub open spec fn on_tabs(self, t: Seq<char>, p: JsonView, fresh: Seq<char>) -> (
        AgentView,
        Seq<AgentActionView>,
    ) {
        let none = Seq::<AgentActionView>::empty();
        if t == "terminal:input"@ {
            match base64_bytes(p.str_or("data"@, ""@)) {
                Some(data) => if has_key(self.tabs, self.meant_tab(p)) {
                    (self, seq![AgentActionView::Input { tab_id: self.meant_tab(p), data }])
                } else {
                    (self, none)
                },
                None => (self, none),
            }
        } else if t == "terminal:resize"@ {
            if has_key(self.tabs, self.meant_tab(p)) {
                (
                    self,
                    seq![
                        AgentActionView::Resize {
                            tab_id: self.meant_tab(p),
                            cols: size_of_side(p.u64_field("cols"@), 80),
                            rows: size_of_side(p.u64_field("rows"@), 24),
                        },
                    ],
                )
            } else {
                (self, none)
            }
        } else if t == "session:tab_create"@ {
            let n = (self.counter + 1) as u32;
            (
                AgentView { counter: n, ..self },
                seq![
                    AgentActionView::OpenTab {
                        tab_id: fresh,
                        title: tab_title(n),
                        user: p.str_field("_user_id"@),
                    },
                ],
            )
        } else if t == "session:tab_close"@ {
            let id = p.str_or("tab_id"@, ""@);
            if self.tabs.len() <= 1 || id.len() == 0 {
                (self, none)
            } else {
                let after = self.closed(id);
                (
                    after,
                    seq![
                        AgentActionView::CloseTab { tab_id: id },
                        after.list(None),
                        after.switched(p.str_field("_user_id"@)),
                    ],
                )
            }
        } else if t == "session:tab_switch"@ {
            let id = p.str_or("tab_id"@, ""@);
            let user = p.str_field("_user_id"@);
            match lookup(self.tabs, id) {
                Some(tab) => {
                    let after = AgentView { active: id, ..self };
                    if tab.output.len() == 0 {
                        (after, seq![after.switched(user)])
                    } else {
                        (
                            after,
                            seq![
                                after.switched(user),
                                AgentActionView::Send(
                                    output_message(self.session_id, id, tab.output, user),
                                ),
                            ],
                        )
                    }
                },
                None => (self, none),
            }
        } else if t == "session:join"@ {
            let user = p.str_field("user_id"@);
            (
                self,
                (seq![self.list(user)] + replays(self.session_id, self.tabs, user)).push(
                    self.switched(user),
                ),
            )
        } else {
            (self, none)
        }
    }

    /// What the agent does about a message from the relay. A read-only agent refuses all that would
    /// change something; a message of a type that is not known does nothing.
    pub open spec fn handle(self, m: MessageView, fresh: Seq<char>) -> (
        AgentView,
        Seq<AgentActionView>,
    ) {
        if self.read_only && !read_only_type(m.msg_type) {
            (self, seq![AgentActionView::Send(denied(self.session_id))])
        } else {
            match fs_op(m.msg_type, m.payload) {
                Some(op) => (
                    self,
                    seq![AgentActionView::Fs { op, request_id: request_of(m.payload) }],
                ),
                None => match exec_action(m.msg_type, m.payload) {
                    Some(a) => (self, seq![a]),
                    None => self.on_tabs(m.msg_type, m.payload, fresh),
                },
            }
        }
    }
}

/// A side of a terminal, taken modulo 65536; `d` where none is given.
pub open spec fn size_of_side(n: Option<u64>, d: u16) -> u16 {
    match n {
        Some(x) => (x % 65536) as u16,
        None => d,
    }
}

fn side(n: Option<u64>, d: u16) -> (r: u16)
    ensures
        r == size_of_side(n, d),
{
    match n {
        Some(x) => (x % 65536) as u16,
        None => d,
    }
}

fn one(a: AgentAction) -> (r: Vec<AgentAction>)
    ensures
        actions_view(r@) == seq![a@],
{
    let ghost doc = a@;
    let mut r: Vec<AgentAction> = Vec::new();
    r.push(a);
    assert(actions_view(r@) =~= seq![doc]);
    r
}

fn nothing() -> (r: Vec<AgentAction>)
    ensures
        actions_view(r@) == Seq::<AgentActionView>::empty(),
{
    let r: Vec<AgentAction> = Vec::new();
    assert(actions_view(r@) =~= Seq::<AgentActionView>::empty());
    r
}

impl AgentSession {
    #[verifier::type_invariant]
    spec fn inv(self) -> bool {
        tabs_bounded(self.tabs@)
    }

    /// A session whose first tab is open.
    pub fn new(session_id: String, token_type: &str, tab_id: String) -> (s: Self)
        ensures
            s@ == AgentView::first(session_id@, token_type@, tab_id@),
    {
        let mut tabs: StrMap<TabState> = StrMap::new();
        let tab = TabState { title: title_of(1), output_buf: Vec::new() };
        assert(tab@ == new_tab(tab_title(1)));
        tabs.insert(tab_id.clone(), tab);
        let s = AgentSession {
            session_id,
            read_only: str_eq(token_type, "ro"),
            tabs,
            active_tab_id: tab_id,
            tab_counter: 1,
        };
        assert(s@.tabs =~= seq![(tab_id@, new_tab(tab_title(1)))]);
        s
    }

    pub fn session_id(&self) -> (r: &str)
        ensures
            r@ == self@.session_id,
    {
        self.session_id.as_str()
    }

    /// How many tabs were opened.
    pub fn tab_counter(&self) -> (n: u32)
        ensures
            n == self@.counter,
    {
        self.tab_counter
    }

    fn list_action(&self, user: &Option<String>) -> (r: AgentAction)
        ensures
            r@ == self@.list(opt_text(*user)),
    {
        let n = self.tabs.len();
        let ghost all = self@.tabs;
        let ghost active = self@.active;
        let mut items: Vec<Json> = Vec::new();
        let mut i: usize = 0;
        while i < n
            invariant
                i <= n,
                n == all.len(),
                n == self.tabs.keys().len(),
                all == self.tabs.entries(),
                active == self.active_tab_id@,
                forall|j: int|
                    0 <= j < n ==> (#[trigger] all[j]) == (
                        self.tabs.keys()[j],
                        self.tabs@[self.tabs.keys()[j]],
                    ),
                items@.len() == i,
                forall|j: int| 0 <= j < i ==> (#[trigger] items@[j])@ == tab_doc(all[j], active),
            decreases n - i,
        {
            let id = self.tabs.key_at(i);
            let tab = self.tabs.value_at(i);
            let is_active = str_eq(id.as_str(), self.active_tab_id.as_str());
            assert(all[i as int] == (id@, tab@));
            items.push(
                Json::object().with_str("tab_id", id.as_str()).with_str(
                    "title",
                    tab.title.as_str(),
                ).with("active", Json::Bool(is_active)),
            );
            i = i + 1;
        }
        proof {
            lemma_items_view(items@);
            assert(items_view(items@) =~= all.map_values(
                |t: (Seq<char>, TabView)| tab_doc(t, active),
            ));
        }
        AgentAction::Send(
            Message::new(
                "session:tab_list",
                self.session_id.as_str(),
                Json::object().with("tabs", Json::Arr(items)).with_opt_str(
                    "_target_user_id",
                    user,
                ),
            ),
        )
    }

    fn switched_action(&self, user: &Option<String>) -> (r: AgentAction)
        ensures
            r@ == self@.switched(opt_text(*user)),
    {
        AgentAction::Send(
            switched_message(
                self.session_id.as_str(),
                self.active_tab_id.as_str(),
                user,
            ),
        )
    }

    /// The messages that a session begins with: its tabs, and which of them is active.
    pub fn greeting(&self) -> (r: Vec<AgentAction>)
        ensures
            actions_view(r@) == self@.announced(None),
    {
        self.announce(&None)
    }

    fn announce(&self, user: &Option<String>) -> (r: Vec<AgentAction>)
        ensures
            actions_view(r@) == self@.announced(opt_text(*user)),
    {
        let mut r: Vec<AgentAction> = Vec::new();
        r.push(self.list_action(&None));
        r.push(self.switched_action(user));
        assert(actions_view(r@) =~= self@.announced(opt_text(*user)));
        r
    }

    /// Takes note that the shell of a new tab runs. All users see the tab; the user who asked for it
    /// is switched to it.
    pub fn tab_opened(&mut self, tab_id: String, title: String, user: &Option<String>) -> (r: Vec<
        AgentAction,
    >)
        ensures
            final(self)@ == old(self)@.opened(tab_id@, title@),
            actions_view(r@) == final(self)@.announced(opt_text(*user)),
    {
        proof {
            use_type_invariant(&*self);
        }
        let ghost m = self.tabs@;
        let mut tabs: StrMap<TabState> = StrMap::new();
        std::mem::swap(&mut tabs, &mut self.tabs);
        let tab = TabState { title, output_buf: Vec::new() };
        assert(tab@ == new_tab(title@));
        tabs.insert(tab_id.clone(), tab);
        assert(tabs_bounded(tabs@)) by {
            assert forall|id: Seq<char>| #[trigger]
                tabs@.contains_key(id) implies tabs@[id].output.len() <= TAB_BUFFER by {
                if id != tab_id@ {
                    assert(m.contains_key(id));
                }
            }
        }
        self.tabs = tabs;
        self.active_tab_id = tab_id;
        self.announce(user)
    }

    /// Takes note of what a tab wrote.
    pub fn tab_wrote(&mut self, tab_id: &str, data: &Vec<u8>)
        ensures
            final(self)@ == old(self)@.wrote(tab_id@, data@),
    {
        proof {
            use_type_invariant(&*self);
        }
        let ghost m = self.tabs@;
        let ghost v = self@;
        let tab = match self.tabs.get(tab_id) {
            Some(t) => TabState {
                title: t.title.clone(),
                output_buf: keep_last(&t.output_buf, data),
            },
            None => {
                return;
            },
        };
        let mut tabs: StrMap<TabState> = StrMap::new();
        std::mem::swap(&mut tabs, &mut self.tabs);
        tabs.insert(tab_id.to_owned(), tab);
        assert(tabs_bounded(tabs@)) by {
            assert forall|id: Seq<char>| #[trigger]
                tabs@.contains_key(id) implies tabs@[id].output.len() <= TAB_BUFFER by {
                if id != tab_id@ {
                    assert(m.contains_key(id));
                }
            }
        }
        self.tabs = tabs;
        assert(self@ =~= v.wrote(tab_id@, data@));
    }

    fn close_tab(&mut self, tab_id: &str)
        ensures
            final(self)@ == old(self)@.closed(tab_id@),
    {
        proof {
            use_type_invariant(&*self);
        }
        let ghost m = self.tabs@;
        let ghost v = self@;
        let mut tabs: StrMap<TabState> = StrMap::new();
        std::mem::swap(&mut tabs, &mut self.tabs);
        let _ = tabs.remove(tab_id);
        if str_eq(self.active_tab_id.as_str(), tab_id) {
            self.active_tab_id = if tabs.len() > 0 {
                tabs.key_at(0).clone()
            } else {
                String::new()
            };
        }
        self.tabs = tabs;
        assert(self@ =~= v.closed(tab_id@));
    }

    fn replay_actions(&self, user: &Option<String>) -> (r: Vec<AgentAction>)
        ensures
            actions_view(r@) == replays(self@.session_id, self@.tabs, opt_text(*user)),
    {
        proof {
            use_type_invariant(self);
        }
        let n = self.tabs.len();
        let ghost all = self@.tabs;
        let ghost sid = self@.session_id;
        let mut r: Vec<AgentAction> = Vec::new();
        let mut i: usize = 0;
        assert(all.take(0) =~= Seq::<(Seq<char>, TabView)>::empty());
        assert(actions_view(r@) =~= Seq::<AgentActionView>::empty());
        while i < n
            invariant
                i <= n,
                n == all.len(),
                n == self.tabs.keys().len(),
                all == self.tabs.entries(),
                sid == self.session_id@,
                tabs_bounded(self.tabs@),
                forall|j: int|
                    0 <= j < n ==> (#[trigger] all[j]) == (
                        self.tabs.keys()[j],
                        self.tabs@[self.tabs.keys()[j]],
                    ),
                actions_view(r@) == replays(sid, all.take(i as int), opt_text(*user)),
            decreases n - i,
        {
            let id = self.tabs.key_at(i);
            let tab = self.tabs.value_at(i);
            assert(all.take(i + 1).drop_last() =~= all.take(i as int));
            assert(all.take(i + 1).last() == (id@, tab@));
            if tab.output_buf.len() > 0 {
                let ghost before = actions_view(r@);
                let m = make_output_message(
                    self.session_id.as_str(),
                    id.as_str(),
                    &tab.output_buf,
                    user,
                );
                r.push(AgentAction::Send(m));
                assert(actions_view(r@) =~= before.push(
                    AgentActionView::Send(
                        output_message(sid, id@, tab@.output, opt_text(*user)),
                    ),
                ));
            }
            i = i + 1;
        }
        assert(all.take(n as int) =~= all);
        r
    }

    fn switch_tab(&mut self, tab_id: &str, user: &Option<String>) -> (r: Vec<AgentAction>)
        ensures
            match lookup(old(self)@.tabs, tab_id@) {
                Some(tab) => {
                    let after = AgentView { active: tab_id@, ..old(self)@ };
                    &&& final(self)@ == after
                    &&& actions_view(r@) == if tab.output.len() == 0 {
                        seq![after.switched(opt_text(*user))]
                    } else {
                        seq![
                            after.switched(opt_text(*user)),
                            AgentActionView::Send(
                                output_message(
                                    after.session_id,
                                    tab_id@,
                                    tab.output,
                                    opt_text(*user),
                                ),
                            ),
                        ]
                    }
                },
                None => final(self)@ == old(self)@ && actions_view(r@) == Seq::<
                    AgentActionView,
                >::empty(),
            },
    {
        proof {
            use_type_invariant(&*self);
        }
        let replay = match self.tabs.get(tab_id) {
            None => {
                return nothing();
            },
            Some(tab) => if tab.output_buf.len() == 0 {
                None
            } else {
                Some(
                    make_output_message(
                        self.session_id.as_str(),
                        tab_id,
                        &tab.output_buf,
                        user,
                    ),
                )
            },
        };
        self.active_tab_id = tab_id.to_owned();
        let mut r = one(self.switched_action(user));
        let ghost first = actions_view(r@);
        match replay {
            Some(m) => {
                r.push(AgentAction::Send(m));
                assert(actions_view(r@) =~= first.push(AgentActionView::Send(m@)));
            },
            None => {},
        }
        r
    }

    fn handle_tabs(&mut self, t: &str, p: &Json, fresh: String) -> (r: Vec<AgentAction>)
        requires
            t@ == "session:tab_create"@ ==> old(self)@.counter < u32::MAX,
        ensures
            (final(self)@, actions_view(r@)) == old(self)@.on_tabs(t@, p@, fresh@),
    {
        proof {
            use_type_invariant(&*self);
        }
        if str_eq(t, "terminal:input") {
            let tab_id = p.str_or("tab_id", self.active_tab_id.as_str());
            match decode_b64(p.str_or("data", "")) {
                Some(data) => if self.tabs.contains_key(tab_id) {
                    one(AgentAction::Input { tab_id: tab_id.to_owned(), data })
                } else {
                    nothing()
                },
                None => nothing(),
            }
        } else if str_eq(t, "terminal:resize") {
            let tab_id = p.str_or("tab_id", self.active_tab_id.as_str());
            if self.tabs.contains_key(tab_id) {
                let cols = side(p.u64_field("cols"), 80);
                let rows = side(p.u64_field("rows"), 24);
                one(AgentAction::Resize { tab_id: tab_id.to_owned(), cols, rows })
            } else {
                nothing()
            }
        } else if str_eq(t, "session:tab_create") {
            self.tab_counter = self.tab_counter + 1;
            let title = title_of(self.tab_counter);
            one(AgentAction::OpenTab { tab_id: fresh, title, user: text_of(p, "_user_id") })
        } else if str_eq(t, "session:tab_close") {
            let tab_id = p.str_or("tab_id", "");
            if self.tabs.len() <= 1 || tab_id.is_empty() {
                return nothing();
            }
            self.close_tab(tab_id);
            let mut r = one(AgentAction::CloseTab { tab_id: tab_id.to_owned() });
            let ghost first = actions_view(r@);
            let user = text_of(p, "_user_id");
            r.push(self.list_action(&None));
            r.push(self.switched_action(&user));
            assert(actions_view(r@) =~= first.push(self@.list(None)).push(
                self@.switched(opt_text(user)),
            ));
            assert(actions_view(r@) =~= seq![
                AgentActionView::CloseTab { tab_id: tab_id@ },
                self@.list(None),
                self@.switched(opt_text(user)),
            ]);
            r
        } else if str_eq(t, "session:tab_switch") {
            let user = text_of(p, "_user_id");
            self.switch_tab(p.str_or("tab_id", ""), &user)
        } else if str_eq(t, "session:join") {
            let user = text_of(p, "user_id");
            let mut r = one(self.list_action(&user));
            let ghost first = actions_view(r@);
            let mut rest = self.replay_actions(&user);
            let ghost mid = actions_view(rest@);
            r.append(&mut rest);
            assert(actions_view(r@) =~= first + mid);
            r.push(self.switched_action(&user));
            assert(actions_view(r@) =~= (first + mid).push(self@.switched(opt_text(user))));
            r
        } else {
            nothing()
        }
    }

    /// Takes a message from the relay, with the id for a new tab given. Returns what is to be done.
    pub fn handle_with(&mut self, m: &Message, fresh: String) -> (r: Vec<AgentAction>)
        requires
            m@.msg_type == "session:tab_create"@ ==> old(self)@.counter < u32::MAX,
        ensures
            (final(self)@, actions_view(r@)) == old(self)@.handle(m@, fresh@),
    {
        let t = m.msg_type.as_str();
        if self.read_only && requires_write(t) {
            return one(AgentAction::Send(denied_message(self.session_id.as_str())));
        }
        match fs_op_of(t, &m.payload) {
            Some(op) => {
                let request_id = request_id_of(&m.payload);
                return one(AgentAction::Fs { op, request_id });
            },
            None => {},
        }
        match exec_action_of(t, &m.payload) {
            Some(a) => one(a),
            None => self.handle_tabs(t, &m.payload, fresh),
        }
    }

    /// Takes a message from the relay. Returns what is to be done.
    pub fn handle(&mut self, m: &Message) -> (r: Vec<AgentAction>)
        requires
            m@.msg_type == "session:tab_create"@ ==> old(self)@.counter < u32::MAX,
        ensures
            exists|fresh: Seq<char>| #[trigger]
                old(self)@.handle(m@, fresh) == (final(self)@, actions_view(r@)) && is_uuid(fresh),
    {
        let fresh = new_uuid();
        self.handle_with(m, fresh)
    }
}

// ---- laws ----
/// A read-only agent does nothing that changes its machine: it answers with an error, and its tabs
/// stay as they are.
pub proof fn read_only_agent_refuses(v: AgentView, m: MessageView, fresh: Seq<char>)
    requires
        v.read_only,
        !read_only_type(m.msg_type),
    ensures
        v.handle(m, fresh) == (v, seq![AgentActionView::Send(denied(v.session_id))]),
{
}

/// Whether an action sends a message that is for one user.
pub open spec fn sends_to(a: AgentActionView, user: Seq<char>) -> bool {
    match a {
        AgentActionView::Send(m) => m.payload.str_field("_target_user_id"@) == Some(user),
        _ => false,
    }
}

/// The user who asks for something about tabs.
pub open spec fn asker(m: MessageView) -> Option<Seq<char>> {
    if m.msg_type == "session:join"@ {
        m.payload.str_field("user_id"@)
    } else {
        m.payload.str_field("_user_id"@)
    }
}

/// Whether an action switches nobody but one user: what it sends is for that user, or says which tabs
/// there are.
pub open spec fn switches_only(a: AgentActionView, user: Seq<char>) -> bool {
    match a {
        AgentActionView::Send(m) => sends_to(a, user) || m.msg_type == "session:tab_list"@,
        AgentActionView::OpenTab { user: u, .. } => u == Some(user),
        AgentActionView::CloseTab { .. } => true,
        _ => false,
    }
}

/// Users are switched between tabs independently. Whatever comes of a user's request to switch, or of
/// a user who joins, is for that user alone; a tab that a user opens or closes is shown to all or gone
/// for all, and switches that user alone.
pub proof fn switching_is_private(v: AgentView, m: MessageView, fresh: Seq<char>, user: Seq<char>)
    requires
        m.msg_type == "session:tab_switch"@ || m.msg_type == "session:join"@ || m.msg_type
            == "session:tab_create"@ || m.msg_type == "session:tab_close"@,
        asker(m) == Some(user),
        !v.read_only,
    ensures
        forall|i: int|
            0 <= i < v.handle(m, fresh).1.len() ==> {
                let a = #[trigger] v.handle(m, fresh).1[i];
                &&& switches_only(a, user)
                &&& m.msg_type == "session:tab_switch"@ || m.msg_type == "session:join"@
                    ==> sends_to(a, user)
            },
        forall|i: int|
            0 <= i < v.announced(Some(user)).len() ==> switches_only(
                #[trigger] v.announced(Some(user))[i],
                user,
            ),
{
    lemma_tab_types();
    reveal_strlit("_target_user_id");
    reveal_strlit("tab_id");
    reveal_strlit("tabs");
    reveal_strlit("data");
    assert("_target_user_id"@.len() != "tab_id"@.len());
    assert("_target_user_id"@.len() != "tabs"@.len());
    assert("_target_user_id"@.len() != "data"@.len());
    if m.msg_type == "session:join"@ {
        lemma_replays_private(v.session_id, v.tabs, user);
        let mid = replays(v.session_id, v.tabs, Some(user));
        let all = v.handle(m, fresh).1;
        assert forall|i: int| 0 <= i < all.len() implies sends_to(#[trigger] all[i], user) by {
            if 0 < i < all.len() - 1 {
                assert(all[i] == mid[i - 1]);
            }
        }
    }
}

proof fn lemma_replays_private(sid: Seq<char>, tabs: Tabs, user: Seq<char>)
    ensures
        forall|i: int|
            0 <= i < replays(sid, tabs, Some(user)).len() ==> sends_to(
                #[trigger] replays(sid, tabs, Some(user))[i],
                user,
            ),
    decreases tabs.len(),
{
    reveal_strlit("_target_user_id");
    reveal_strlit("tab_id");
    reveal_strlit("data");
    assert("_target_user_id"@.len() != "tab_id"@.len());
    assert("_target_user_id"@.len() != "data"@.len());
    if tabs.len() > 0 {
        lemma_replays_private(sid, tabs.drop_last(), user);
        let before = replays(sid, tabs.drop_last(), Some(user));
        let all = replays(sid, tabs, Some(user));
        assert forall|i: int| 0 <= i < all.len() implies sends_to(#[trigger] all[i], user) by {
            if i < before.len() {
                assert(all[i] == before[i]);
            }
        }
    }
}

proof fn lemma_tab_types()
    ensures
        forall|t: Seq<char>, p: JsonView|
            t.len() > 0 && t[0] == 's' ==> #[trigger] fs_op(t, p) is None,
        forall|t: Seq<char>, p: JsonView|
            t.len() > 0 && t[0] == 's' ==> #[trigger] exec_action(t, p) is None,
        "session:tab_switch"@.len() > 0 && "session:tab_switch"@[0] == 's',
        "session:tab_create"@.len() > 0 && "session:tab_create"@[0] == 's',
        "session:tab_close"@.len() > 0 && "session:tab_close"@[0] == 's',
        "session:join"@.len() > 0 && "session:join"@[0] == 's',
        "terminal:input"@[0] != 's',
        "terminal:resize"@[0] != 's',
        "session:tab_switch"@ != "session:tab_create"@,
        "session:tab_switch"@ != "session:tab_close"@,
        "session:tab_switch"@ != "session:join"@,
        "session:tab_create"@ != "session:tab_close"@,
        "session:tab_create"@ != "session:join"@,
        "session:tab_close"@ != "session:join"@,
{
    reveal_strlit("session:tab_switch");
    reveal_strlit("session:tab_create");
    reveal_strlit("session:tab_close");
    reveal_strlit("session:join");
    reveal_strlit("fs:list");
    reveal_strlit("fs:read");
    reveal_strlit("fs:write");
    reveal_strlit("fs:upload");
    reveal_strlit("fs:delete");
    reveal_strlit("fs:rename");
    reveal_strlit("fs:mkdir");
    reveal_strlit("mcp:exec");
    reveal_strlit("mcp:exec_start");
    reveal_strlit("mcp:exec_input");
    reveal_strlit("mcp:exec_close");
    reveal_strlit("mcp:exec_list");
    reveal_strlit("terminal:input");
    reveal_strlit("terminal:resize");
    assert("session:tab_switch"@[12] == 's');
    assert("session:tab_create"@[12] == 'c');
    assert("session:tab_close"@.len() == 17);
    assert("session:join"@.len() == 12);
}

/// No two tabs have the same id.
pub open spec fn distinct(tabs: Tabs) -> bool {
    forall|i: int, j: int|
        0 <= i < tabs.len() && 0 <= j < tabs.len() && i != j ==> (#[trigger] tabs[i]).0 != (
        #[trigger] tabs[j]).0
}

/// A session always keeps a tab, and one of its tabs is the active one, whatever message comes.
pub proof fn active_tab_exists(v: AgentView, m: MessageView, fresh: Seq<char>)
    requires
        distinct(v.tabs),
        has_key(v.tabs, v.active),
    ensures
        has_key(v.handle(m, fresh).0.tabs, v.handle(m, fresh).0.active),
{
    let w = v.handle(m, fresh).0;
    let id = m.payload.str_or("tab_id"@, ""@);
    lemma_lookup_has_key(v.tabs, id);
    let tabs = drop_key(v.tabs, id);
    let other = |e: (Seq<char>, TabView)| e.0 != id;
    lemma_filter(v.tabs, other);
    if has_key(v.tabs, v.active) && v.active != id {
        let i = choose|i: int| 0 <= i < v.tabs.len() && (#[trigger] v.tabs[i]).0 == v.active;
        assert(v.tabs.contains(v.tabs[i]));
        assert(tabs.contains(v.tabs[i]));
        let j = choose|j: int| 0 <= j < tabs.len() && tabs[j] == v.tabs[i];
        assert(tabs[j].0 == v.active);
    }
    if v.active == id && v.tabs.len() > 1 {
        assert(v.tabs[0].0 != v.tabs[1].0);
        lemma_drop_leaves(v.tabs, id);
        assert(w.tabs == tabs && w.active == tabs[0].0 || w.tabs == v.tabs);
    }
}

proof fn lemma_drop_leaves(tabs: Tabs, id: Seq<char>)
    ensures
        drop_key(tabs, id).len() > 0 || forall|i: int|
            0 <= i < tabs.len() ==> (#[trigger] tabs[i]).0 == id,
{
    let other = |e: (Seq<char>, TabView)| e.0 != id;
    lemma_filter(tabs, other);
    if exists|i: int| 0 <= i < tabs.len() && (#[trigger] tabs[i]).0 != id {
        let i = choose|i: int| 0 <= i < tabs.len() && (#[trigger] tabs[i]).0 != id;
        assert(tabs.contains(tabs[i]));
        assert(drop_key(tabs, id).contains(tabs[i]));
    }
}

} // verus!
