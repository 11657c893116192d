//! The MCP endpoint: remote commands for AI agents, as JSON-RPC over server-sent events.
use axum::http::HeaderMap;
use vstd::prelude::*;

use crate::json::{items_view, lemma_items_view, Json, JsonView};
use crate::outside::{is_uuid, new_uuid};
use crate::proto::{message, Message, MessageView, Permission};
use crate::relay::auth::{client, client_address, constant_time_eq, header, header_or_empty};
use crate::relay::state::{json_reply, text_reply, RelayView, Reply, ReplyView, SharedState};
use crate::relay::ws::{command_result, count_request, counted, param, query_param, route};
use crate::strmap::StrMap;
use crate::text::{decimal_i64, decimal_int, join2, opt_str, str_eq, trim, trimmed};

verus! {

/// How long a command may run where the call does not say, in milliseconds.
pub const DEFAULT_TIMEOUT_MS: u64 = 30000;

/// How long a command may run at most, in milliseconds.
pub const MAX_TIMEOUT_MS: u64 = 300000;

/// The first of three texts that is not empty; the last one where all are.
pub open spec fn first_given(a: Seq<char>, b: Seq<char>, c: Seq<char>) -> Seq<char> {
    if a.len() > 0 {
        a
    } else if b.len() > 0 {
        b
    } else {
        c
    }
}

pub open spec fn or_empty(o: Option<Seq<char>>) -> Seq<char> {
    match o {
        Some(s) => s,
        None => Seq::empty(),
    }
}

/// Whether a password opens the server; every one does where none is set.
pub open spec fn password_ok(v: RelayView, given: Seq<char>) -> bool {
    v.server_auth.len() == 0 || given == v.server_auth
}

fn check_password(state: &SharedState, given: &str) -> (r: bool)
    ensures
        r == password_ok(state@, given@),
{
    state.server_auth.as_str().is_empty() || constant_time_eq(given, state.server_auth.as_str())
}

/// What comes of a request for the MCP stream.
pub enum McpStream {
    /// The password is wrong: the stream holds one error event with these data, and ends.
    Refused(String),
    /// The stream is open; its first event names the endpoint to post to.
    Open { stream_id: String, endpoint: String },
}

pub enum McpStreamView {
    Refused(Seq<char>),
    Open { stream_id: Seq<char>, endpoint: Seq<char> },
}

impl View for McpStream {
    type V = McpStreamView;

    open spec fn view(&self) -> McpStreamView {
        match self {
            McpStream::Refused(s) => McpStreamView::Refused(s@),
            McpStream::Open { stream_id, endpoint } => McpStreamView::Open {
                stream_id: stream_id@,
                endpoint: endpoint@,
            },
        }
    }
}

/// What the relay does when an AI agent asks for its stream.
pub open spec fn mcp_open(
    v: RelayView,
    header_auth: Seq<char>,
    query_auth: Seq<char>,
    id: Seq<char>,
) -> (RelayView, McpStreamView) {
    if !password_ok(v, first_given(header_auth, query_auth, Seq::empty())) {
        (
            v,
            McpStreamView::Refused(
                "{\"code\":\"AUTH_INVALID_PASSWORD\",\"message\":\"Invalid server password\"}"@,
            ),
        )
    } else {
        (
            RelayView { mcp_streams: v.mcp_streams.insert(id), ..v },
            McpStreamView::Open {
                stream_id: id,
                endpoint: "/agent/mcp/messages?sessionId="@ + id,
            },
        )
    }
}

fn first_of<'a>(a: &'a str, b: &'a str, c: &'a str) -> (r: &'a str)
    ensures
        r@ == first_given(a@, b@, c@),
{
    if !a.is_empty() {
        a
    } else if !b.is_empty() {
        b
    } else {
        c
    }
}

/// Opens an MCP stream under the id given.
pub fn mcp_open_with(
    state: &mut SharedState,
    header_auth: &str,
    query_auth: &str,
    id: String,
) -> (r: McpStream)
    ensures
        (final(state)@, r@) == mcp_open(old(state)@, header_auth@, query_auth@, id@),
{
    let none = String::new();
    let given = first_of(header_auth, query_auth, none.as_str());
    if !check_password(state, given) {
        return McpStream::Refused(
            "{\"code\":\"AUTH_INVALID_PASSWORD\",\"message\":\"Invalid server password\"}".to_owned(),
        );
    }
    let ghost open = state@.mcp_streams;
    state.mcp_sse_channels.insert(id.clone(), ());
    assert(state@.mcp_streams =~= open.insert(id@));
    let endpoint = join2("/agent/mcp/messages?sessionId=", id.as_str());
    McpStream::Open { stream_id: id, endpoint }
}

/// Opens an MCP stream. The server password comes in the `X-Auth` header or the query.
pub fn sse_handler(state: &mut SharedState, headers: &HeaderMap, params: &StrMap<String>) -> (r:
    McpStream)
    ensures
        exists|id: Seq<char>| #[trigger]
            mcp_open(
                old(state)@,
                or_empty(header(*headers, "x-auth"@)),
                or_empty(param(params@, "auth"@)),
                id,
            ) == (final(state)@, r@) && is_uuid(id),
{
    let id = new_uuid();
    let given = header_or_empty(headers, "x-auth");
    let none = String::new();
    let query = match query_param(params, "auth") {
        Some(s) => s,
        None => none.as_str(),
    };
    assert(given@ == or_empty(header(*headers, "x-auth"@)));
    assert(query@ == or_empty(param(params@, "auth"@)));
    mcp_open_with(state, given.as_str(), query, id)
}

/// What comes of a posted MCP message.
pub enum McpPost {
    Refused(Reply),
    /// The message is taken; its response goes to this stream.
    Accepted { reply: Reply, stream_id: String },
}

pub enum McpPostView {
    Refused(ReplyView),
    Accepted { reply: ReplyView, stream_id: Seq<char> },
}

impl View for McpPost {
    type V = McpPostView;

    open spec fn view(&self) -> McpPostView {
        match self {
            McpPost::Refused(r) => McpPostView::Refused(r@),
            McpPost::Accepted { reply, stream_id } => McpPostView::Accepted {
                reply: reply@,
                stream_id: stream_id@,
            },
        }
    }
}

/// The JSON-RPC response to the request `id` with one member more.
pub open spec fn rpc(id: JsonView, member: Seq<char>, value: JsonView) -> JsonView {
    JsonView::object().with_str("jsonrpc"@, "2.0"@).with("id"@, id).with(member, value)
}

/// The JSON-RPC response that names an error.
pub open spec fn rpc_error(id: JsonView, code: int, text: Seq<char>) -> JsonView {
    rpc(
        id,
        "error"@,
        JsonView::object().with("code"@, JsonView::Int(code)).with_str("message"@, text),
    )
}

fn rpc_json(id: Json, member: &str, value: Json) -> (r: Json)
    ensures
        r@ == rpc(id@, member@, value@),
{
    Json::object().with_str("jsonrpc", "2.0").with("id", id).with(member, value)
}

fn rpc_error_json(id: Json, code: i64, text: &str) -> (r: Json)
    ensures
        r@ == rpc_error(id@, code as int, text@),
{
    rpc_json(
        id,
        "error",
        Json::object().with("code", Json::Int(code as i128)).with_str("message", text),
    )
}

/// What the relay does with a posted MCP message. A client posts at most sixty times a minute; the
/// server password comes in the header, the query or the message.
pub open spec fn mcp_post(
    v: RelayView,
    who: Seq<char>,
    header_auth: Seq<char>,
    query_auth: Seq<char>,
    session: Option<Seq<char>>,
    body: JsonView,
    now: u128,
) -> (RelayView, McpPostView) {
    let (v1, allowed) = counted(v, who, 60, now);
    let id = or_empty(session);
    if !allowed {
        (v1, McpPostView::Refused(text_reply(429, "Too many requests"@)))
    } else if !password_ok(
        v1,
        first_given(header_auth, query_auth, body.str_or("auth"@, ""@)),
    ) {
        (
            v1,
            McpPostView::Refused(
                json_reply(200, rpc_error(body.at("id"@), -32001, "Invalid server password"@)),
            ),
        )
    } else if id.len() == 0 {
        (v1, McpPostView::Refused(text_reply(400, "Missing sessionId"@)))
    } else if !v1.mcp_streams.contains(id) {
        (v1, McpPostView::Refused(text_reply(404, "SSE session not found"@)))
    } else {
        (v1, McpPostView::Accepted { reply: text_reply(202, ""@), stream_id: id })
    }
}

/// Takes a posted MCP message, with what its request carries and the time given.
pub fn mcp_post_with(
    state: &mut SharedState,
    who: &str,
    header_auth: &str,
    query_auth: &str,
    session: Option<&str>,
    body: &Json,
    now: u128,
) -> (r: McpPost)
    ensures
        (final(state)@, r@) == mcp_post(
            old(state)@,
            who@,
            header_auth@,
            query_auth@,
            opt_str(session),
            body@,
            now,
        ),
{
    if !count_request(state, who, 60, now) {
        return McpPost::Refused(Reply::text(429, "Too many requests"));
    }
    let given = first_of(header_auth, query_auth, body.str_or("auth", ""));
    if !check_password(state, given) {
        return McpPost::Refused(
            Reply::json(
                200,
                rpc_error_json(body.at("id"), -32001, "Invalid server password"),
            ),
        );
    }
    let id = match session {
        Some(s) => s,
        None => {
            return McpPost::Refused(Reply::text(400, "Missing sessionId"));
        },
    };
    if id.is_empty() {
        return McpPost::Refused(Reply::text(400, "Missing sessionId"));
    }
    if !state.mcp_sse_channels.contains_key(id) {
        return McpPost::Refused(Reply::text(404, "SSE session not found"));
    }
    McpPost::Accepted { reply: Reply::text(202, ""), stream_id: id.to_owned() }
}

/// Takes a posted MCP message.
pub fn messages_handler(
    state: &mut SharedState,
    headers: &HeaderMap,
    params: &StrMap<String>,
    body: &Json,
) -> (r: McpPost)
    ensures
        exists|now: u128| #[trigger]
            mcp_post(
                old(state)@,
                client(*headers),
                or_empty(header(*headers, "x-auth"@)),
                or_empty(param(params@, "auth"@)),
                param(params@, "sessionId"@),
                body@,
                now,
            ) == (final(state)@, r@),
{
    let now = state.now();
    let who = client_address(headers);
    let given = header_or_empty(headers, "x-auth");
    let none = String::new();
    let query = match query_param(params, "auth") {
        Some(s) => s,
        None => none.as_str(),
    };
    assert(given@ == or_empty(header(*headers, "x-auth"@)));
    assert(query@ == or_empty(param(params@, "auth"@)));
    mcp_post_with(
        state,
        who.as_str(),
        given.as_str(),
        query,
        query_param(params, "sessionId"),
        body,
        now,
    )
}

// ---- what a message asks for ----
/// What is to be done about an MCP message.
pub enum McpStep {
    /// Send this response.
    Respond(Json),
    /// Wait for the agent's result of this request, then respond to `rpc_id`.
    Wait { request_id: String, rpc_id: Json, timeout_ms: u64 },
}

pub enum McpStepView {
    Respond(JsonView),
    Wait { request_id: Seq<char>, rpc_id: JsonView, timeout_ms: u64 },
}

impl View for McpStep {
    type V = McpStepView;

    open spec fn view(&self) -> McpStepView {
        match self {
            McpStep::Respond(j) => McpStepView::Respond(j@),
            McpStep::Wait { request_id, rpc_id, timeout_ms } => McpStepView::Wait {
                request_id: request_id@,
                rpc_id: rpc_id@,
                timeout_ms: *timeout_ms,
            },
        }
    }
}

/// A JSON schema of a member, with its type and what it is for.
pub open spec fn member_schema(kind: Seq<char>, about: Seq<char>) -> JsonView {
    JsonView::object().with_str("type"@, kind).with_str("description"@, about)
}

fn member_json(kind: &str, about: &str) -> (r: Json)
    ensures
        r@ == member_schema(kind@, about@),
{
    Json::object().with_str("type", kind).with_str("description", about)
}

/// What the server says of itself.
pub open spec fn server_info(version: Seq<char>) -> JsonView {
    JsonView::object().with_str("protocolVersion"@, "2024-11-05"@).with(
        "serverInfo"@,
        JsonView::object().with_str("name"@, "shell-remote"@).with_str("version"@, version),
    ).with("capabilities"@, JsonView::object().with("tools"@, JsonView::object()))
}

fn server_info_json(version: &str) -> (r: Json)
    ensures
        r@ == server_info(version@),
{
    Json::object().with_str("protocolVersion", "2024-11-05").with(
        "serverInfo",
        Json::object().with_str("name", "shell-remote").with_str("version", version),
    ).with("capabilities", Json::object().with("tools", Json::object()))
}

/// The one tool that the server offers.
pub open spec fn tool_doc() -> JsonView {
    JsonView::object().with_str("name"@, "exec_remote"@).with_str(
        "description"@,
        "Execute a shell command on the remote target machine. Returns stdout, stderr, and exit code."@,
    ).with(
        "inputSchema"@,
        JsonView::object().with_str("type"@, "object"@).with(
            "properties"@,
            JsonView::object().with(
                "token"@,
                member_schema("string"@, "Session token for authentication"@),
            ).with(
                "cmd"@,
                member_schema(
                    "string"@,
                    "The shell command to execute on the remote machine"@,
                ),
            ).with(
                "timeout_ms"@,
                member_schema(
                    "number"@,
                    "Optional timeout in milliseconds (default 30s)"@,
                ),
            ),
        ).with(
            "required"@,
            JsonView::Arr(seq![JsonView::Str("token"@), JsonView::Str("cmd"@)]),
        ),
    )
}

fn tool_json() -> (r: Json)
    ensures
        r@ == tool_doc(),
{
    let mut required: Vec<Json> = Vec::new();
    required.push(Json::text("token"));
    required.push(Json::text("cmd"));
    proof {
        lemma_items_view(required@);
        assert(items_view(required@) =~= seq![JsonView::Str("token"@), JsonView::Str("cmd"@)]);
    }
    let properties = Json::object().with(
        "token",
        member_json("string", "Session token for authentication"),
    ).with(
        "cmd",
        member_json("string", "The shell command to execute on the remote machine"),
    ).with(
        "timeout_ms",
        member_json("number", "Optional timeout in milliseconds (default 30s)"),
    );
    Json::object().with_str("name", "exec_remote").with_str(
        "description",
        "Execute a shell command on the remote target machine. Returns stdout, stderr, and exit code.",
    ).with(
        "inputSchema",
        Json::object().with_str("type", "object").with("properties", properties).with(
            "required",
            Json::Arr(required),
        ),
    )
}

/// A list of one document.
pub open spec fn only(j: JsonView) -> JsonView {
    JsonView::Arr(seq![j])
}

fn only_json(j: Json) -> (r: Json)
    ensures
        r@ == only(j@),
{
    let ghost doc = j@;
    let mut items: Vec<Json> = Vec::new();
    items.push(j);
    proof {
        lemma_items_view(items@);
        assert(items_view(items@) =~= seq![doc]);
    }
    Json::Arr(items)
}

/// The result of a tool call: a text.
pub open spec fn tool_result(text: Seq<char>) -> JsonView {
    JsonView::object().with(
        "content"@,
        only(JsonView::object().with_str("type"@, "text"@).with_str("text"@, text)),
    )
}

/// The result of a tool call that failed.
pub open spec fn tool_failure(text: Seq<char>) -> JsonView {
    tool_result(text).with("isError"@, JsonView::Bool(true))
}

fn tool_result_json(text: &str) -> (r: Json)
    ensures
        r@ == tool_result(text@),
{
    Json::object().with(
        "content",
        only_json(Json::object().with_str("type", "text").with_str("text", text)),
    )
}

fn tool_failure_json(text: &str) -> (r: Json)
    ensures
        r@ == tool_failure(text@),
{
    tool_result_json(text).with("isError", Json::Bool(true))
}

/// The command that an agent is sent.
pub open spec fn command_doc(
    sid: Seq<char>,
    cmd: Seq<char>,
    timeout_ms: Option<u64>,
    request_id: Seq<char>,
) -> JsonView {
    let p = JsonView::object().with_str("cmd"@, cmd);
    let q = match timeout_ms {
        Some(t) => p.with("timeout_ms"@, JsonView::Int(t as int)),
        None => p,
    };
    message("mcp:exec"@, sid, q.with_str("_mcp_request_id"@, request_id)).json()
}

/// How long the relay waits for a command.
pub open spec fn wait_ms(timeout_ms: Option<u64>) -> u64 {
    match timeout_ms {
        Some(t) => if t < MAX_TIMEOUT_MS {
            t
        } else {
            MAX_TIMEOUT_MS
        },
        None => DEFAULT_TIMEOUT_MS,
    }
}

/// The token of a call: the one among its arguments, or else the one that came with the request.
pub open spec fn call_token(url_token: Option<Seq<char>>, args: JsonView) -> Seq<char> {
    match args.str_field("token"@) {
        Some(t) => t,
        None => match url_token {
            Some(t) => t,
            None => ""@,
        },
    }
}

/// What the relay does with a call of a tool. The token comes with the arguments, or else with the
/// request; it must allow writing. The command goes to the agent of the session that it opens.
pub open spec fn tool_call(
    v: RelayView,
    url_token: Option<Seq<char>>,
    id: JsonView,
    params: JsonView,
    request_id: Seq<char>,
) -> (RelayView, McpStepView) {
    let tool = params.str_or("name"@, ""@);
    let args = params.at("arguments"@);
    let token = call_token(url_token, args);
    if tool != "exec_remote"@ {
        (v, McpStepView::Respond(rpc_error(id, -32601, "Unknown tool: "@ + tool)))
    } else {
        match v.registry.authenticate(token) {
            None => (v, McpStepView::Respond(rpc_error(id, -32001, "Invalid token"@))),
            Some((sid, p)) => if p == Permission::ReadOnly {
                (
                    v,
                    McpStepView::Respond(
                        rpc_error(id, -32002, "Read-only token cannot call exec_remote"@),
                    ),
                )
            } else if !v.online(sid) {
                (
                    RelayView { pending: v.pending.remove(request_id), ..v },
                    McpStepView::Respond(
                        rpc(
                            id,
                            "result"@,
                            tool_failure("Error: No agent connected for this session"@),
                        ),
                    ),
                )
            } else {
                let timeout_ms = args.u64_field("timeout_ms"@);
                let v1 = RelayView { pending: v.pending.insert(request_id, sid), ..v };
                (
                    v1.to_agent(
                        sid,
                        command_doc(sid, args.str_or("cmd"@, ""@), timeout_ms, request_id),
                    ),
                    McpStepView::Wait { request_id, rpc_id: id, timeout_ms: wait_ms(timeout_ms) },
                )
            },
        }
    }
}

/// What the relay does with an MCP message.
pub open spec fn mcp_begin(
    v: RelayView,
    url_token: Option<Seq<char>>,
    body: JsonView,
    version: Seq<char>,
    request_id: Seq<char>,
) -> (RelayView, McpStepView) {
    let method = body.str_or("method"@, ""@);
    let id = body.at("id"@);
    if method == "initialize"@ {
        (v, McpStepView::Respond(rpc(id, "result"@, server_info(version))))
    } else if method == "tools/list"@ {
        (
            v,
            McpStepView::Respond(
                rpc(id, "result"@, JsonView::object().with("tools"@, only(tool_doc()))),
            ),
        )
    } else if method == "tools/call"@ {
        tool_call(v, url_token, id, body.at("params"@), request_id)
    } else {
        (v, McpStepView::Respond(rpc_error(id, -32601, "Unknown method: "@ + method)))
    }
}

fn call_tool(
    state: &mut SharedState,
    url_token: Option<&str>,
    id: Json,
    params: &Json,
    request_id: String,
) -> (r: McpStep)
    ensures
        (final(state)@, r@) == tool_call(
            old(state)@,
            opt_str(url_token),
            id@,
            params@,
            request_id@,
        ),
{
    let tool = params.str_or("name", "");
    if !str_eq(tool, "exec_remote") {
        return McpStep::Respond(
            rpc_error_json(id, -32601, join2("Unknown tool: ", tool).as_str()),
        );
    }
    let args = params.at("arguments");
    let token = match args.str_field("token") {
        Some(t) => t,
        None => match url_token {
            Some(t) => t,
            None => "",
        },
    };
    let (session_id, permission) = match state.sessions.authenticate(token) {
        Some(a) => a,
        None => {
            return McpStep::Respond(rpc_error_json(id, -32001, "Invalid token"));
        },
    };
    if permission == Permission::ReadOnly {
        return McpStep::Respond(
            rpc_error_json(id, -32002, "Read-only token cannot call exec_remote"),
        );
    }
    if !state.is_online(session_id.as_str()) {
        let _ = state.pending_mcp.remove(request_id.as_str());
        return McpStep::Respond(
            rpc_json(
                id,
                "result",
                tool_failure_json("Error: No agent connected for this session"),
            ),
        );
    }
    let timeout_ms = args.u64_field("timeout_ms");
    let payload = Json::object().with_str("cmd", args.str_or("cmd", ""));
    let payload = match timeout_ms {
        Some(t) => payload.with("timeout_ms", Json::Int(t as i128)),
        None => payload,
    };
    let payload = payload.with_str("_mcp_request_id", request_id.as_str());
    state.pending_mcp.insert(request_id.clone(), session_id.clone());
    let m = Message::new("mcp:exec", session_id.as_str(), payload);
    state.send_to_agent(session_id.as_str(), m.to_json());
    let wait: u64 = match timeout_ms {
        Some(t) => if t < MAX_TIMEOUT_MS {
            t
        } else {
            MAX_TIMEOUT_MS
        },
        None => DEFAULT_TIMEOUT_MS,
    };
    McpStep::Wait { request_id, rpc_id: id, timeout_ms: wait }
}

/// Takes an MCP message, with the request id given.
pub fn process_mcp_with(
    state: &mut SharedState,
    url_token: Option<&str>,
    body: &Json,
    version: &str,
    request_id: String,
) -> (r: McpStep)
    ensures
        (final(state)@, r@) == mcp_begin(
            old(state)@,
            opt_str(url_token),
            body@,
            version@,
            request_id@,
        ),
{
    let method = body.str_or("method", "");
    let id = body.at("id");
    if str_eq(method, "initialize") {
        McpStep::Respond(rpc_json(id, "result", server_info_json(version)))
    } else if str_eq(method, "tools/list") {
        McpStep::Respond(
            rpc_json(id, "result", Json::object().with("tools", only_json(tool_json()))),
        )
    } else if str_eq(method, "tools/call") {
        let params = body.at("params");
        call_tool(state, url_token, id, &params, request_id)
    } else {
        McpStep::Respond(
            rpc_error_json(id, -32601, join2("Unknown method: ", method).as_str()),
        )
    }
}

/// Takes an MCP message: responds to it, or sends its command to an agent and says what to wait
/// for. `version` is the server's own.
pub fn process_mcp_request(
    state: &mut SharedState,
    url_token: Option<&str>,
    body: &Json,
    version: &str,
) -> (r: McpStep)
    ensures
        exists|request_id: Seq<char>| #[trigger]
            mcp_begin(
                old(state)@,
                opt_str(url_token),
                body@,
                version@,
                request_id,
            ) == (final(state)@, r@) && is_uuid(request_id),
{
    let request_id = new_uuid();
    process_mcp_with(state, url_token, body, version, request_id)
}

/// What a command wrote, as the text of a tool's result.
pub open spec fn output_text(result: JsonView) -> Seq<char> {
    let stdout = result.str_or("stdout"@, ""@);
    let stderr = result.str_or("stderr"@, ""@);
    let code = match result.i64_field("exit_code"@) {
        Some(n) => n as int,
        None => 0,
    };
    let text = if stderr.len() > 0 {
        stdout + ("\n[stderr]\n"@ + stderr)
    } else {
        stdout
    };
    trimmed(
        if text.len() == 0 {
            "Exit code: "@ + decimal_int(code)
        } else {
            text
        },
    )
}

fn result_text(result: &Json) -> (r: String)
    ensures
        r@ == output_text(result@),
{
    let stdout = result.str_or("stdout", "");
    let stderr = result.str_or("stderr", "");
    let code: i64 = match result.i64_field("exit_code") {
        Some(n) => n,
        None => 0,
    };
    let text = if !stderr.is_empty() {
        join2(stdout, join2("\n[stderr]\n", stderr).as_str())
    } else {
        stdout.to_owned()
    };
    let text = if text.as_str().is_empty() {
        join2("Exit code: ", decimal_i64(code).as_str())
    } else {
        text
    };
    trim(text.as_str()).to_owned()
}

/// The response to a call whose agent gave its result, or gave none in time. In the latter case
/// nothing waits for the result any more.
pub open spec fn mcp_end(
    v: RelayView,
    request_id: Seq<char>,
    rpc_id: JsonView,
    result: Option<JsonView>,
) -> (RelayView, JsonView) {
    match result {
        Some(r) => (v, rpc(rpc_id, "result"@, tool_result(output_text(r)))),
        None => (
            RelayView { pending: v.pending.remove(request_id), ..v },
            rpc(
                rpc_id,
                "result"@,
                tool_failure("Error: Request timed out or agent disconnected"@),
            ),
        ),
    }
}

/// Makes the response to a call once its agent gave its result, or gave none in time.
pub fn finish_mcp_request(
    state: &mut SharedState,
    request_id: &str,
    rpc_id: Json,
    result: Option<&Json>,
) -> (r: Json)
    ensures
        (final(state)@, r@) == mcp_end(
            old(state)@,
            request_id@,
            rpc_id@,
            match result {
                Some(j) => Some(j@),
                None => None,
            },
        ),
{
    match result {
        Some(j) => rpc_json(
            rpc_id,
            "result",
            tool_result_json(result_text(j).as_str()),
        ),
        None => {
            let _ = state.pending_mcp.remove(request_id);
            rpc_json(
                rpc_id,
                "result",
                tool_failure_json("Error: Request timed out or agent disconnected"),
            )
        },
    }
}

// ---- laws ----
/// A read-only token calls no tool: the call is answered with an error and nothing changes.
pub proof fn read_only_cannot_call(
    v: RelayView,
    url_token: Option<Seq<char>>,
    id: JsonView,
    params: JsonView,
    request_id: Seq<char>,
    sid: Seq<char>,
)
    requires
        params.str_or("name"@, ""@) == "exec_remote"@,
        v.registry.authenticate(call_token(url_token, params.at("arguments"@))) == Some(
            (sid, Permission::ReadOnly),
        ),
    ensures
        tool_call(v, url_token, id, params, request_id) == (
            v,
            McpStepView::Respond(
                rpc_error(id, -32002, "Read-only token cannot call exec_remote"@),
            ),
        ),
{
}

/// A call that is waited for is pending under its own id for a session that its token opens with
/// write permission, and is waited for no longer than the longest time allowed.
pub proof fn waiting_call_is_pending(
    v: RelayView,
    url_token: Option<Seq<char>>,
    body: JsonView,
    version: Seq<char>,
    request_id: Seq<char>,
)
    ensures
        ({
            let (w, step) = mcp_begin(v, url_token, body, version, request_id);
            &&& w.registry == v.registry
            &&& (step matches McpStepView::Wait { request_id: id, timeout_ms, .. } ==> {
                &&& id == request_id
                &&& timeout_ms <= MAX_TIMEOUT_MS
                &&& w.pending == v.pending.insert(request_id, w.pending[request_id])
                &&& v.online(w.pending[request_id])
                &&& exists|token: Seq<char>| #[trigger]
                    v.registry.authenticate(token) == Some(
                        (w.pending[request_id], Permission::ReadWrite),
                    )
            })
        }),
{
    let (w, step) = mcp_begin(v, url_token, body, version, request_id);
    let token = call_token(url_token, body.at("params"@).at("arguments"@));
    if step is Wait {
        assert(v.registry.authenticate(token) == Some(
            (w.pending[request_id], Permission::ReadWrite),
        ));
    }
}

/// Remote commands are not recorded: neither a call nor what the agent answers it with reaches a
/// recording.
pub proof fn commands_are_not_recorded(
    v: RelayView,
    url_token: Option<Seq<char>>,
    body: JsonView,
    version: Seq<char>,
    request_id: Seq<char>,
    sid: Seq<char>,
    doc: JsonView,
)
    requires
        MessageView::of(doc) matches Some(m) ==> m.msg_type != "terminal:output"@,
    ensures
        mcp_begin(v, url_token, body, version, request_id).0.recorder == v.recorder,
        route(v, sid, doc).0.recorder == v.recorder,
{
}

/// What the agent answers is what the caller gets: the answer to a waiting call ends the wait, and
/// the response is made of it.
pub proof fn answer_ends_the_wait(
    v: RelayView,
    sid: Seq<char>,
    doc: JsonView,
    request_id: Seq<char>,
    rpc_id: JsonView,
)
    requires
        v.pending.contains_key(request_id),
        MessageView::of(doc) is Some,
        (MessageView::of(doc)->0).msg_type == "mcp:result"@,
        (MessageView::of(doc)->0).payload.str_field("_mcp_request_id"@) == Some(request_id),
    ensures
        ({
            let payload = (MessageView::of(doc)->0).payload;
            let (w, answer) = route(v, sid, doc);
            &&& answer == Some((request_id, command_result(payload)))
            &&& !w.pending.contains_key(request_id)
            &&& mcp_end(w, request_id, rpc_id, Some((answer->0).1)) == (
                w,
                rpc(rpc_id, "result"@, tool_result(output_text(command_result(payload)))),
            )
        }),
{
    reveal_strlit("mcp:result");
    reveal_strlit("mcp:exec_result");
    assert("mcp:result"@.len() != "mcp:exec_result"@.len());
}

} // verus!
