//! What reaches whom: agents, browsers, waiting requests and recordings.
use vstd::prelude::*;

use crate::agent::session::{chunk_reply, fs_reply};
use crate::handshake::streams_apart;
use crate::json::JsonView;
use crate::laws::files::given;
use crate::outside::base64_bytes;
use crate::payload::FsResultView;
use crate::relay::auth::utf8_text;
use crate::relay::queue::delivered;
use crate::relay::recorder::RecordEventView;
use crate::relay::state::{target_streams, RelayView};
use crate::relay::ws::{fan_out_reaches, route, targets_are_meant};

verus! {

/// Whether a document is a message of type `t` with the payload `p`.
pub open spec fn says(doc: JsonView, t: Seq<char>, p: JsonView) -> bool {
    &&& doc is Obj
    &&& doc.str_field("type"@) == Some(t)
    &&& doc.str_field("session_id"@) is Some
    &&& doc.get("payload"@) == Some(p)
}

proof fn lemma_says(doc: JsonView, t: Seq<char>, p: JsonView)
    requires
        says(doc, t, p),
    ensures
        crate::proto::MessageView::of(doc) matches Some(m) && m.msg_type == t && m.payload == p
            && Some(m.session_id) == doc.str_field("session_id"@),
{
}

proof fn lemma_targets_apart(
    browsers: Seq<(Seq<char>, Seq<char>)>,
    target: Option<Seq<char>>,
)
    requires
        streams_apart(browsers),
    ensures
        target_streams(browsers, target).no_duplicates(),
    decreases browsers.len(),
{
    if browsers.len() > 0 {
        let init = browsers.drop_last();
        let rest = target_streams(init, target);
        let last = browsers.last();
        assert(streams_apart(init)) by {
            assert forall|i: int, j: int|
                0 <= i < init.len() && 0 <= j < init.len() && i != j implies (#[trigger] init[i]).1
                    != (#[trigger] init[j]).1 by {
                assert(browsers[i].1 != browsers[j].1);
            }
        }
        lemma_targets_apart(init, target);
        targets_are_meant(init, target, last.1);
        assert(!rest.contains(last.1)) by {
            if rest.contains(last.1) {
                let i = choose|i: int|
                    0 <= i < init.len() && (#[trigger] init[i]).1 == last.1
                        && crate::relay::state::meant_for(target, init[i].0);
                assert(browsers[i].1 != browsers[browsers.len() - 1].1);
            }
        }
        let all = target_streams(browsers, target);
        assert forall|x: int, y: int|
            0 <= x < all.len() && 0 <= y < all.len() && x != y implies all[x] != all[y] by {
            if x < rest.len() {
                assert(rest.contains(rest[x]));
            }
            if y < rest.len() {
                assert(rest.contains(rest[y]));
            }
        }
    }
}

/// What an agent says of its tabs, its terminals, its files and its commands reaches every browser
/// of its session, after what waits for the browser already; where it is for one user, it reaches
/// that user alone. Nobody who waits for a request hears of it.
pub proof fn agent_message_reaches_browsers(
    v: RelayView,
    sid: Seq<char>,
    doc: JsonView,
    t: Seq<char>,
    p: JsonView,
    i: int,
)
    requires
        says(doc, t, p),
        t == "session:users"@ || t == "session:tab_list"@ || t == "session:tab_switched"@ || t
            == "terminal:output"@ || t == "fs:result"@ || t == "fs:mkdir"@ || t == "mcp:result"@,
        p.get("_mcp_request_id"@) is None,
        v.channels.contains_key(sid),
        streams_apart(v.channels[sid].browsers),
        0 <= i < v.channels[sid].browsers.len(),
        v.streams.contains_key(v.channels[sid].browsers[i].1),
    ensures
        ({
            let (user, stream) = v.channels[sid].browsers[i];
            let target = p.str_field("_target_user_id"@);
            let (w, answer) = route(v, sid, doc);
            &&& answer is None
            &&& w.streams.contains_key(stream)
            &&& target is None || target == Some(user) ==> w.streams[stream] == delivered(
                v.streams[stream],
                doc,
            )
            &&& target is Some && target != Some(user) ==> w.streams[stream] == v.streams[stream]
        }),
{
    lemma_says(doc, t, p);
    let browsers = v.channels[sid].browsers;
    let (user, stream) = browsers[i];
    let target = p.str_field("_target_user_id"@);
    let ids = target_streams(browsers, target);
    lemma_targets_apart(browsers, target);
    targets_are_meant(browsers, target, stream);
    if ids.contains(stream) {
        let k = choose|k: int|
            0 <= k < browsers.len() && (#[trigger] browsers[k]).1 == stream
                && crate::relay::state::meant_for(target, browsers[k].0);
        if k != i {
            assert(browsers[k].1 != browsers[i].1);
        }
    }
    fan_out_reaches(v.streams, ids, doc, stream);
}

/// The answer to a file operation that a browser asked for reaches every browser of the session,
/// whether it comes in one message or in several.
pub proof fn file_answer_reaches_browsers(
    v: RelayView,
    sid: Seq<char>,
    r: FsResultView,
    path: Seq<char>,
    content: Seq<char>,
    index: nat,
    total: nat,
    i: int,
)
    requires
        v.channels.contains_key(sid),
        streams_apart(v.channels[sid].browsers),
        0 <= i < v.channels[sid].browsers.len(),
        v.streams.contains_key(v.channels[sid].browsers[i].1),
    ensures
        ({
            let stream = v.channels[sid].browsers[i].1;
            let whole = fs_reply(sid, r, None).json();
            let part = chunk_reply(sid, path, content, index, total, None).json();
            &&& route(v, sid, whole).0.streams[stream] == delivered(v.streams[stream], whole)
            &&& route(v, sid, part).0.streams[stream] == delivered(v.streams[stream], part)
        }),
{
    reveal_strlit("success");
    reveal_strlit("error");
    reveal_strlit("entries");
    reveal_strlit("content");
    reveal_strlit("path");
    reveal_strlit("new_path");
    reveal_strlit("_mcp_request_id");
    reveal_strlit("_target_user_id");
    reveal_strlit("chunk_index");
    reveal_strlit("total_chunks");
    assert("success"@.len() != "error"@.len());
    assert("success"@[0] != "entries"@[0]);
    assert("success"@[0] != "content"@[0]);
    assert("success"@.len() != "path"@.len());
    assert("success"@.len() != "new_path"@.len());
    assert("success"@.len() != "_mcp_request_id"@.len());
    assert("success"@.len() != "_target_user_id"@.len());
    assert("success"@.len() != "chunk_index"@.len());
    assert("success"@.len() != "total_chunks"@.len());
    assert("error"@.len() != "entries"@.len());
    assert("error"@.len() != "content"@.len());
    assert("error"@.len() != "path"@.len());
    assert("error"@.len() != "new_path"@.len());
    assert("error"@.len() != "_mcp_request_id"@.len());
    assert("error"@.len() != "_target_user_id"@.len());
    assert("error"@.len() != "chunk_index"@.len());
    assert("error"@.len() != "total_chunks"@.len());
    assert("entries"@[0] != "content"@[0]);
    assert("entries"@.len() != "path"@.len());
    assert("entries"@.len() != "new_path"@.len());
    assert("entries"@.len() != "_mcp_request_id"@.len());
    assert("entries"@.len() != "_target_user_id"@.len());
    assert("entries"@.len() != "chunk_index"@.len());
    assert("entries"@.len() != "total_chunks"@.len());
    assert("content"@.len() != "path"@.len());
    assert("content"@.len() != "new_path"@.len());
    assert("content"@.len() != "_mcp_request_id"@.len());
    assert("content"@.len() != "_target_user_id"@.len());
    assert("content"@.len() != "chunk_index"@.len());
    assert("content"@.len() != "total_chunks"@.len());
    assert("path"@.len() != "new_path"@.len());
    assert("path"@.len() != "_mcp_request_id"@.len());
    assert("path"@.len() != "_target_user_id"@.len());
    assert("path"@.len() != "chunk_index"@.len());
    assert("path"@.len() != "total_chunks"@.len());
    assert("new_path"@.len() != "_mcp_request_id"@.len());
    assert("new_path"@.len() != "_target_user_id"@.len());
    assert("new_path"@.len() != "chunk_index"@.len());
    assert("new_path"@.len() != "total_chunks"@.len());
    assert("_mcp_request_id"@[1] != "_target_user_id"@[1]);
    assert("_mcp_request_id"@.len() != "chunk_index"@.len());
    assert("_mcp_request_id"@.len() != "total_chunks"@.len());
    assert("_target_user_id"@.len() != "chunk_index"@.len());
    assert("_target_user_id"@.len() != "total_chunks"@.len());
    assert("chunk_index"@.len() != "total_chunks"@.len());
    reveal_strlit("type");
    reveal_strlit("session_id");
    reveal_strlit("payload");
    assert("type"@.len() != "session_id"@.len());
    assert("type"@.len() != "payload"@.len());
    assert("session_id"@.len() != "payload"@.len());
    let a = fs_reply(sid, r, None);
    let b = chunk_reply(sid, path, content, index, total, None);
    assert(says(a.json(), "fs:result"@, a.payload));
    assert(says(b.json(), "fs:result"@, b.payload));
    agent_message_reaches_browsers(v, sid, a.json(), "fs:result"@, a.payload, i);
    agent_message_reaches_browsers(v, sid, b.json(), "fs:result"@, b.payload, i);
}

/// A message of any other type, and one that answers a request, reaches no browser.
pub proof fn other_messages_reach_no_browser(
    v: RelayView,
    sid: Seq<char>,
    doc: JsonView,
    t: Seq<char>,
    p: JsonView,
)
    requires
        says(doc, t, p),
        p.get("_mcp_request_id"@) is Some || t != "session:users"@ && t != "session:tab_list"@
            && t != "session:tab_switched"@ && t != "terminal:output"@ && t != "fs:result"@ && t
            != "fs:mkdir"@ && t != "mcp:result"@,
    ensures
        route(v, sid, doc).0.streams == v.streams,
{
    lemma_says(doc, t, p);
}

/// A queue with room takes every message, at its end.
pub proof fn delivery_adds_at_the_end(q: Seq<JsonView>, m: JsonView)
    requires
        q.len() < 256,
    ensures
        delivered(q, m) == q.push(m),
{
}

/// A full queue makes room for what is no terminal output by dropping the oldest terminal output
/// that waits; it takes no terminal output.
pub proof fn full_queue_drops_output(q: Seq<JsonView>, m: JsonView, k: int)
    requires
        q.len() == 256,
        0 <= k < 256,
        q[k].str_field("type"@) == Some("terminal:output"@),
        forall|i: int|
            0 <= i < k ==> (#[trigger] q[i]).str_field("type"@) != Some("terminal:output"@),
    ensures
        m.str_field("type"@) == Some("terminal:output"@) ==> delivered(q, m) == q,
        m.str_field("type"@) != Some("terminal:output"@) ==> delivered(q, m) == q.remove(k).push(m),
{
    crate::relay::queue::lemma_first_lossy_at(q, k);
}

/// What an agent answers a request with is what the request gets. Of a command it is what the
/// command wrote and its exit code; of a file operation it is whether it worked, why not, and what
/// it found; of a background command it is the agent's own words. The request then waits no more.
pub proof fn request_gets_its_answer(
    v: RelayView,
    sid: Seq<char>,
    doc: JsonView,
    t: Seq<char>,
    p: JsonView,
    id: Seq<char>,
)
    requires
        says(doc, t, p),
        p.str_field("_mcp_request_id"@) == Some(id),
        t == "mcp:result"@ || t == "fs:result"@ || t == "mcp:exec_result"@,
    ensures
        ({
            let (w, answer) = route(v, sid, doc);
            &&& v.pending.contains_key(id) ==> {
                &&& answer matches Some((to, r)) && to == id
                &&& w.pending == v.pending.remove(id)
                &&& t == "mcp:exec_result"@ ==> (answer->0).1 == p
                &&& t == "mcp:result"@ ==> {
                    let r = (answer->0).1;
                    &&& r.str_field("stdout"@) == Some(given(p, "stdout"@, Seq::empty()))
                    &&& r.str_field("stderr"@) == Some(given(p, "stderr"@, Seq::empty()))
                    &&& p.i64_field("exit_code"@) is Some ==> r.i64_field("exit_code"@)
                        == p.i64_field("exit_code"@)
                    &&& p.i64_field("exit_code"@) is None ==> r.i64_field("exit_code"@) == Some(
                        0i64,
                    )
                }
                &&& t == "fs:result"@ ==> {
                    let r = (answer->0).1;
                    &&& r.bool_field("success"@) == Some(p.bool_field("success"@) == Some(true))
                    &&& r.str_field("error"@) == Some(given(p, "error"@, Seq::empty()))
                    &&& r.str_field("content"@) == Some(given(p, "content"@, Seq::empty()))
                    &&& r.str_field("path"@) == Some(given(p, "path"@, Seq::empty()))
                    &&& r.str_field("new_path"@) == Some(given(p, "new_path"@, Seq::empty()))
                    &&& r.get("entries"@) == Some(p.at("entries"@))
                }
            }
            &&& !v.pending.contains_key(id) ==> answer is None && w.pending == v.pending
        }),
{
    lemma_says(doc, t, p);
    reveal_strlit("mcp:result");
    reveal_strlit("fs:result");
    reveal_strlit("mcp:exec_result");
    assert("mcp:result"@.len() != "fs:result"@.len());
    assert("mcp:result"@.len() != "mcp:exec_result"@.len());
    assert("fs:result"@.len() != "mcp:exec_result"@.len());
    reveal_strlit("stdout");
    reveal_strlit("stderr");
    reveal_strlit("exit_code");
    assert("stdout"@[3] != "stderr"@[3]);
    assert("stdout"@.len() != "exit_code"@.len());
    assert("stderr"@.len() != "exit_code"@.len());
    reveal_strlit("");
    assert(""@ =~= Seq::<char>::empty());
    reveal_strlit("success");
    reveal_strlit("error");
    reveal_strlit("content");
    reveal_strlit("entries");
    reveal_strlit("path");
    reveal_strlit("new_path");
    assert("success"@.len() != "error"@.len());
    assert("success"@[0] != "content"@[0]);
    assert("success"@[0] != "entries"@[0]);
    assert("success"@.len() != "path"@.len());
    assert("success"@.len() != "new_path"@.len());
    assert("error"@.len() != "content"@.len());
    assert("error"@.len() != "entries"@.len());
    assert("error"@.len() != "path"@.len());
    assert("error"@.len() != "new_path"@.len());
    assert("content"@[0] != "entries"@[0]);
    assert("content"@.len() != "path"@.len());
    assert("content"@.len() != "new_path"@.len());
    assert("entries"@.len() != "path"@.len());
    assert("entries"@.len() != "new_path"@.len());
    assert("path"@.len() != "new_path"@.len());
}

/// A message that is no result answers no request, whatever it names.
pub proof fn other_messages_answer_nothing(
    v: RelayView,
    sid: Seq<char>,
    doc: JsonView,
    t: Seq<char>,
    p: JsonView,
)
    requires
        says(doc, t, p),
        t != "mcp:result"@ && t != "fs:result"@ && t != "mcp:exec_result"@,
    ensures
        route(v, sid, doc).1 is None,
        route(v, sid, doc).0.pending == v.pending,
{
    lemma_says(doc, t, p);
}

/// What a terminal shows is recorded under its session, as the text of its bytes; data that is no
/// base64 is recorded as it is. Nothing else that an agent says is recorded.
pub proof fn output_is_recorded(
    v: RelayView,
    sid: Seq<char>,
    doc: JsonView,
    t: Seq<char>,
    p: JsonView,
)
    requires
        says(doc, t, p),
        v.recorder is Some,
    ensures
        ({
            let before = v.recorder->0;
            let after = route(v, sid, doc).0.recorder;
            &&& after is Some
            &&& t != "terminal:output"@ || p.str_field("data"@) is None ==> after->0 == before
            &&& t == "terminal:output"@ && p.str_field("data"@) is Some ==> {
                let data = p.str_field("data"@)->0;
                &&& base64_bytes(data) matches Some(b) ==> after->0 == before.record(
                    sid,
                    RecordEventView::Output(utf8_text(b)),
                )
                &&& base64_bytes(data) is None ==> after->0 == before.record(
                    sid,
                    RecordEventView::Output(data),
                )
            }
        }),
{
    lemma_says(doc, t, p);
}

} // verus!
