//! What agents and the relay say to each other fits together.
use vstd::prelude::*;

use crate::agent::client::{
    named_token_doc, read_named, register_doc, registration, NamedTokens, RegisterFailureView,
};
use crate::agent::session::{
    command_reply, exec_action, fs_op, output_message, AgentActionView, AgentView, DEFAULT_EXEC_MS,
};
use crate::json::JsonView;
use crate::outside::base64_bytes;
use crate::payload::McpResultView;
use crate::proto::{message, message_round_trip, MessageView, Permission};
use crate::relay::admin::perm_name;
use crate::relay::mcp::{command_doc, mcp_end, output_text, rpc, tool_result};
use crate::relay::queue::{delivered, SSE_CHANNEL_CAPACITY};
use crate::relay::session::Tokens;
use crate::relay::state::{bare, target_streams, RelayView};
use crate::relay::ws::{
    browser_send, browser_sse, cached_tokens, command_result, desired_id, fan_out_reaches,
    read_tokens, registered_doc, route, token_doc,
};
use crate::strmap::{has_key, put};

verus! {

/// Tokens with the names of their permissions.
pub open spec fn named(toks: Tokens) -> NamedTokens {
    toks.map_values(|e: (Seq<char>, Permission)| (e.0, perm_name(e.1)))
}

proof fn lemma_token_names()
    ensures
        "token"@ != "permission"@,
        "rw"@ != "ro"@,
{
    reveal_strlit("token");
    reveal_strlit("permission");
    reveal_strlit("rw");
    reveal_strlit("ro");
    assert("token"@.len() != "permission"@.len());
    assert("rw"@[1] != "ro"@[1]);
}

proof fn lemma_read_named_docs(toks: Tokens)
    ensures
        read_named(toks.map_values(|e: (Seq<char>, Permission)| token_doc(e))) == Ok::<
            NamedTokens,
            RegisterFailureView,
        >(named(toks)),
    decreases toks.len(),
{
    lemma_token_names();
    let docs = toks.map_values(|e: (Seq<char>, Permission)| token_doc(e));
    if toks.len() == 0 {
        assert(named(toks) =~= Seq::<(Seq<char>, Seq<char>)>::empty());
    } else {
        let init = toks.drop_last();
        lemma_read_named_docs(init);
        assert(docs.drop_last() =~= init.map_values(|e: (Seq<char>, Permission)| token_doc(e)));
        assert(named(init).push((toks.last().0, perm_name(toks.last().1))) =~= named(toks));
    }
}

/// An agent reads its session and its tokens from the reply to its registration.
pub proof fn registration_is_read(sid: Seq<char>, toks: Tokens)
    ensures
        registration(registered_doc(sid, toks)) == Ok::<
            (Seq<char>, NamedTokens),
            RegisterFailureView,
        >((sid, named(toks))),
{
    reveal_strlit("type");
    reveal_strlit("session_id");
    reveal_strlit("payload");
    assert("type"@.len() != "session_id"@.len());
    assert("type"@.len() != "payload"@.len());
    assert("session_id"@.len() != "payload"@.len());
    lemma_read_named_docs(toks);
}

proof fn lemma_read_back(toks: Tokens)
    ensures
        read_tokens(
            named(toks).map_values(|e: (Seq<char>, Seq<char>)| named_token_doc(e)),
        ) == Some(toks),
    decreases toks.len(),
{
    lemma_token_names();
    let docs = named(toks).map_values(|e: (Seq<char>, Seq<char>)| named_token_doc(e));
    if toks.len() == 0 {
        assert(toks =~= Seq::<(Seq<char>, Permission)>::empty());
    } else {
        let init = toks.drop_last();
        lemma_read_back(init);
        assert(docs.drop_last() =~= named(init).map_values(
            |e: (Seq<char>, Seq<char>)| named_token_doc(e),
        ));
        assert(init.push(toks.last()) =~= toks);
    }
}

/// An agent that comes back with the tokens it was given asks for those tokens, and for the id it
/// wants.
pub proof fn reconnect_asks_for_its_tokens(
    key: Option<Seq<char>>,
    token_type: Seq<char>,
    toks: Tokens,
    sid: Seq<char>,
)
    requires
        toks.len() > 0,
        sid.len() > 0,
    ensures
        cached_tokens(register_doc(key, token_type, Some(named(toks)), Some(sid))) == Some(toks),
        desired_id(register_doc(key, token_type, Some(named(toks)), Some(sid))) == Some(sid),
{
    reveal_strlit("type");
    reveal_strlit("key");
    reveal_strlit("token_type");
    reveal_strlit("tokens");
    reveal_strlit("session_id");
    assert("tokens"@.len() != "session_id"@.len());
    lemma_read_back(toks);
}

/// The command that the relay sends is the command that the agent is asked to run.
pub proof fn command_reaches_agent(
    v: AgentView,
    sid: Seq<char>,
    cmd: Seq<char>,
    timeout_ms: Option<u64>,
    request_id: Seq<char>,
    fresh: Seq<char>,
)
    requires
        !v.read_only,
    ensures
        ({
            let doc = command_doc(sid, cmd, timeout_ms, request_id);
            &&& MessageView::of(doc) is Some
            &&& v.handle(MessageView::of(doc)->0, fresh) == (
                v,
                seq![
                    AgentActionView::Exec {
                        cmd,
                        timeout_ms: match timeout_ms {
                            Some(t) => t,
                            None => DEFAULT_EXEC_MS,
                        },
                        request_id: Some(request_id),
                    },
                ],
            )
        }),
{
    reveal_strlit("cmd");
    reveal_strlit("timeout_ms");
    reveal_strlit("_mcp_request_id");
    assert("cmd"@.len() != "timeout_ms"@.len());
    assert("cmd"@.len() != "_mcp_request_id"@.len());
    assert("timeout_ms"@.len() != "_mcp_request_id"@.len());
    let p = JsonView::object().with_str("cmd"@, cmd);
    let q = match timeout_ms {
        Some(t) => p.with("timeout_ms"@, JsonView::Int(t as int)),
        None => p,
    };
    let m = MessageView {
        msg_type: "mcp:exec"@,
        session_id: sid,
        payload: q.with_str("_mcp_request_id"@, request_id),
    };
    message_round_trip(m);
    reveal_strlit("mcp:exec");
    reveal_strlit("fs:list");
    reveal_strlit("fs:read");
    reveal_strlit("fs:write");
    reveal_strlit("fs:upload");
    reveal_strlit("fs:delete");
    reveal_strlit("fs:rename");
    reveal_strlit("fs:mkdir");
    assert("mcp:exec"@[0] != "fs:list"@[0]);
    assert("mcp:exec"@[0] != "fs:read"@[0]);
    assert("mcp:exec"@[0] != "fs:write"@[0]);
    assert("mcp:exec"@[0] != "fs:upload"@[0]);
    assert("mcp:exec"@[0] != "fs:delete"@[0]);
    assert("mcp:exec"@[0] != "fs:rename"@[0]);
    assert("mcp:exec"@[0] != "fs:mkdir"@[0]);
}

/// What an agent says of a command is what the caller gets, and the caller waits no more.
pub proof fn result_reaches_caller(
    v: RelayView,
    sid: Seq<char>,
    result: McpResultView,
    request_id: Seq<char>,
    rpc_id: JsonView,
)
    requires
        v.pending.contains_key(request_id),
    ensures
        ({
            let doc = command_reply(sid, result, Some(request_id)).json();
            let (w, answer) = route(v, sid, doc);
            &&& answer == Some((request_id, result.json()))
            &&& !w.pending.contains_key(request_id)
            &&& mcp_end(w, request_id, rpc_id, Some(result.json())) == (
                w,
                rpc(rpc_id, "result"@, tool_result(output_text(result.json()))),
            )
        }),
{
    let m = command_reply(sid, result, Some(request_id));
    message_round_trip(m);
    reveal_strlit("stdout");
    reveal_strlit("stderr");
    reveal_strlit("exit_code");
    reveal_strlit("_mcp_request_id");
    assert("stdout"@[3] != "stderr"@[3]);
    assert("stdout"@.len() != "exit_code"@.len());
    assert("stderr"@.len() != "exit_code"@.len());
    assert("stdout"@.len() != "_mcp_request_id"@.len());
    assert("stderr"@.len() != "_mcp_request_id"@.len());
    assert("exit_code"@.len() != "_mcp_request_id"@.len());
    reveal_strlit("mcp:result");
    reveal_strlit("mcp:exec_result");
    assert("mcp:result"@.len() != "mcp:exec_result"@.len());
    assert(command_result(m.payload) == result.json());
}

proof fn lemma_input_type()
    ensures
        forall|p: JsonView| #[trigger] fs_op("terminal:input"@, p) is None,
        forall|p: JsonView| #[trigger] exec_action("terminal:input"@, p) is None,
{
    reveal_strlit("terminal:input");
    reveal_strlit("fs:list");
    reveal_strlit("fs:read");
    reveal_strlit("fs:write");
    reveal_strlit("fs:upload");
    reveal_strlit("fs:delete");
    reveal_strlit("fs:rename");
    reveal_strlit("fs:mkdir");
    reveal_strlit("mcp:exec");
    reveal_strlit("mcp:exec_start");
    reveal_strlit("mcp:exec_input");
    reveal_strlit("mcp:exec_close");
    reveal_strlit("mcp:exec_list");
    assert("terminal:input"@[0] == 't');
    assert("fs:list"@[0] == 'f');
    assert("mcp:exec"@[0] == 'm');
}

/// What a user with write permission types is what the shell gets: the message waits for the agent
/// behind what waited before, and the agent types its bytes into the tab that is meant.
pub proof fn input_reaches_shell(
    v: RelayView,
    body: JsonView,
    now: u128,
    sid: Seq<char>,
    data: Seq<u8>,
    a: AgentView,
    fresh: Seq<char>,
)
    requires
        body.str_field("token"@) matches Some(t) && v.registry.authenticate(t) == Some(
            (sid, Permission::ReadWrite),
        ),
        body.str_field("type"@) == Some("terminal:input"@),
        base64_bytes(body.at("payload"@).str_or("data"@, ""@)) == Some(data),
        v.online(sid),
        v.waiting_for_agent(sid).len() < SSE_CHANNEL_CAPACITY,
        !a.read_only,
        has_key(a.tabs, a.meant_tab(body.at("payload"@))),
    ensures
        ({
            let m = message("terminal:input"@, sid, body.at("payload"@));
            let (w, reply) = browser_send(v, body, now);
            &&& reply == bare(202)
            &&& w.waiting_for_agent(sid) == v.waiting_for_agent(sid).push(m.json())
            &&& MessageView::of(m.json()) == Some(m)
            &&& a.handle(m, fresh) == (
                a,
                seq![AgentActionView::Input { tab_id: a.meant_tab(body.at("payload"@)), data }],
            )
        }),
{
    message_round_trip(message("terminal:input"@, sid, body.at("payload"@)));
    lemma_input_type();
    reveal_strlit("terminal:input");
}

/// No two users of a session have the same stream.
pub open spec fn streams_apart(browsers: Seq<(Seq<char>, Seq<char>)>) -> bool {
    forall|i: int, j: int|
        0 <= i < browsers.len() && 0 <= j < browsers.len() && i != j ==> (#[trigger] browsers[i]).1
            != (#[trigger] browsers[j]).1
}

/// A browser that connects on a stream of its own keeps the streams of its session apart.
pub proof fn connecting_keeps_streams_apart(
    v: RelayView,
    token: Seq<char>,
    user: Seq<char>,
    stream: Seq<char>,
    sid: Seq<char>,
    p: Permission,
)
    requires
        v.registry.authenticate(token) == Some((sid, p)),
        v.channels.contains_key(sid),
        streams_apart(v.channels[sid].browsers),
        forall|i: int|
            0 <= i < v.channels[sid].browsers.len() ==> (#[trigger] v.channels[sid].browsers[i]).1
                != stream,
        !has_key(v.channels[sid].browsers, user),
    ensures
        streams_apart(browser_sse(v, Some(token), user, stream).0.channels[sid].browsers),
{
    let before = v.channels[sid].browsers;
    let after = put(before, user, stream);
    assert(after =~= before.push((user, stream)));
    assert(browser_sse(v, Some(token), user, stream).0.channels[sid].browsers == after);
}

pub proof fn lemma_all_streams(browsers: Seq<(Seq<char>, Seq<char>)>)
    ensures
        target_streams(browsers, None).len() == browsers.len(),
        forall|i: int|
            0 <= i < browsers.len() ==> #[trigger] target_streams(browsers, None)[i]
                == browsers[i].1,
    decreases browsers.len(),
{
    if browsers.len() > 0 {
        lemma_all_streams(browsers.drop_last());
    }
}

/// What a shell writes is what every browser of its session gets, after what waits for it already.
pub proof fn output_reaches_browsers(
    v: RelayView,
    sid: Seq<char>,
    tab: Seq<char>,
    data: Seq<u8>,
    i: int,
)
    requires
        v.channels.contains_key(sid),
        streams_apart(v.channels[sid].browsers),
        0 <= i < v.channels[sid].browsers.len(),
        v.streams.contains_key(v.channels[sid].browsers[i].1),
    ensures
        ({
            let doc = output_message(sid, tab, data, None).json();
            let stream = v.channels[sid].browsers[i].1;
            let w = route(v, sid, doc).0;
            &&& w.streams.contains_key(stream)
            &&& w.streams[stream] == delivered(v.streams[stream], doc)
        }),
{
    let m = output_message(sid, tab, data, None);
    message_round_trip(m);
    let browsers = v.channels[sid].browsers;
    let ids = target_streams(browsers, None);
    lemma_all_streams(browsers);
    assert(ids.no_duplicates()) by {
        assert forall|a: int, b: int|
            0 <= a < ids.len() && 0 <= b < ids.len() && a != b implies ids[a] != ids[b] by {
            assert(browsers[a].1 != browsers[b].1);
        }
    }
    assert(ids.contains(ids[i]));
    fan_out_reaches(v.streams, ids, m.json(), browsers[i].1);
    reveal_strlit("data");
    reveal_strlit("tab_id");
    reveal_strlit("_target_user_id");
    reveal_strlit("_mcp_request_id");
    assert("data"@.len() != "_mcp_request_id"@.len());
    assert("tab_id"@.len() != "_mcp_request_id"@.len());
    assert("data"@.len() != "_target_user_id"@.len());
    assert("tab_id"@.len() != "_target_user_id"@.len());
}

} // verus!
