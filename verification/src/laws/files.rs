//! What an agent does with requests about files, and what the requester is told.
use vstd::prelude::*;

use crate::agent::fs::{
    candidate_path, components, create_result, delete_plan, delete_result, entry_less, entry_of,
    list_result, listing, listing_is_ordered, mode_text, parts, path_under, raw_view,
    read_result, rename_result, resolved, same_path, text_less, write_bytes_result, write_plan,
    write_result, CandidateView, DeletePlanView, ListOutcome, LookupView, RawEntry,
    RawEntryView, ReadOutcome, RenameOutcome, WriteOutcome, WritePlanView,
};
use crate::agent::session::{fs_reply, read_replies, AgentActionView, AgentView, FsOpView};
use crate::agent::upload::{upload_action, UploadActionView};
use crate::json::JsonView;
use crate::outside::{base64_bytes, base64_text};
use crate::payload::FsResultView;
use crate::proto::MessageView;
use crate::text::{decimal, split_on};

verus! {

// ---- requests ----
/// A text field of a request, or what is taken where the request has none.
pub open spec fn given(p: JsonView, name: Seq<char>, otherwise: Seq<char>) -> Seq<char> {
    match p.get(name) {
        Some(JsonView::Str(s)) => s,
        _ => otherwise,
    }
}

/// Whether a message is handled as one file operation, for the request that it names.
pub open spec fn performs(v: AgentView, m: MessageView, fresh: Seq<char>, op: FsOpView) -> bool {
    v.handle(m, fresh) == (
        v,
        seq![AgentActionView::Fs { op, request_id: m.payload.str_field("_mcp_request_id"@) }],
    )
}

/// Each file message is the operation of its own name, on the paths that it names: a list of the
/// root where it names none, and elsewhere of the empty path.
pub proof fn file_message_is_its_operation(v: AgentView, m: MessageView, fresh: Seq<char>)
    requires
        !v.read_only || m.msg_type == "fs:list"@ || m.msg_type == "fs:read"@,
    ensures
        m.msg_type == "fs:list"@ ==> performs(
            v,
            m,
            fresh,
            FsOpView::List { path: given(m.payload, "path"@, "."@) },
        ),
        m.msg_type == "fs:read"@ ==> performs(
            v,
            m,
            fresh,
            FsOpView::Read { path: given(m.payload, "path"@, ""@) },
        ),
        m.msg_type == "fs:write"@ ==> performs(
            v,
            m,
            fresh,
            FsOpView::Write {
                path: given(m.payload, "path"@, ""@),
                content: given(m.payload, "content"@, ""@),
            },
        ),
        m.msg_type == "fs:upload"@ ==> performs(
            v,
            m,
            fresh,
            FsOpView::Upload { payload: m.payload },
        ),
        m.msg_type == "fs:delete"@ ==> performs(
            v,
            m,
            fresh,
            FsOpView::Delete { path: given(m.payload, "path"@, ""@) },
        ),
        m.msg_type == "fs:rename"@ ==> performs(
            v,
            m,
            fresh,
            FsOpView::Rename {
                from: given(m.payload, "from"@, ""@),
                to: given(m.payload, "to"@, ""@),
            },
        ),
        m.msg_type == "fs:mkdir"@ ==> performs(
            v,
            m,
            fresh,
            FsOpView::Mkdir { path: given(m.payload, "path"@, ""@) },
        ),
{
    reveal_strlit("fs:list");
    reveal_strlit("fs:read");
    reveal_strlit("fs:write");
    reveal_strlit("fs:upload");
    reveal_strlit("fs:delete");
    reveal_strlit("fs:rename");
    reveal_strlit("fs:mkdir");
    assert("fs:list"@[3] != "fs:read"@[3]);
    assert("fs:list"@.len() != "fs:write"@.len());
    assert("fs:list"@.len() != "fs:upload"@.len());
    assert("fs:list"@.len() != "fs:delete"@.len());
    assert("fs:list"@.len() != "fs:rename"@.len());
    assert("fs:list"@.len() != "fs:mkdir"@.len());
    assert("fs:read"@.len() != "fs:write"@.len());
    assert("fs:read"@.len() != "fs:upload"@.len());
    assert("fs:read"@.len() != "fs:delete"@.len());
    assert("fs:read"@.len() != "fs:rename"@.len());
    assert("fs:read"@.len() != "fs:mkdir"@.len());
    assert("fs:write"@.len() != "fs:upload"@.len());
    assert("fs:write"@.len() != "fs:delete"@.len());
    assert("fs:write"@.len() != "fs:rename"@.len());
    assert("fs:write"@[3] != "fs:mkdir"@[3]);
    assert("fs:upload"@[3] != "fs:delete"@[3]);
    assert("fs:upload"@[3] != "fs:rename"@[3]);
    assert("fs:upload"@.len() != "fs:mkdir"@.len());
    assert("fs:delete"@[3] != "fs:rename"@[3]);
    assert("fs:delete"@.len() != "fs:mkdir"@.len());
    assert("fs:rename"@.len() != "fs:mkdir"@.len());
}

/// What is written to a file is what was sent: a message that carries the base64 of some bytes is a
/// write to the path that it names, of a content that decodes to those bytes.
pub proof fn written_bytes_are_the_sent_bytes(
    v: AgentView,
    m: MessageView,
    fresh: Seq<char>,
    path: Seq<char>,
    data: Seq<u8>,
)
    requires
        !v.read_only,
        m.msg_type == "fs:write"@,
        m.payload.str_field("path"@) == Some(path),
        m.payload.str_field("content"@) == Some(base64_text(data)),
        base64_bytes(base64_text(data)) == Some(data),
    ensures
        v.handle(m, fresh).0 == v,
        v.handle(m, fresh).1.len() == 1,
        v.handle(m, fresh).1[0] matches AgentActionView::Fs { op, request_id } && {
            &&& op matches FsOpView::Write { path: p, content } && p == path && base64_bytes(
                content,
            ) == Some(data)
            &&& request_id == m.payload.str_field("_mcp_request_id"@)
        },
{
    reveal_strlit("fs:list");
    reveal_strlit("fs:read");
    reveal_strlit("fs:write");
    assert("fs:list"@[3] != "fs:read"@[3]);
    assert("fs:list"@.len() != "fs:write"@.len());
    assert("fs:read"@.len() != "fs:write"@.len());
}

// ---- what the requester is told ----
/// Whether a result says that it worked, on a path, with nothing else.
pub open spec fn worked(r: FsResultView, path: Seq<char>) -> bool {
    r.success && r.error is None && r.path == Some(path)
}

/// Whether a result says that it did not work, on a path, and why.
pub open spec fn went_wrong(r: FsResultView, path: Seq<char>, why: Seq<char>) -> bool {
    !r.success && r.error == Some(why) && r.path == Some(path) && r.entries is None && r.content
        is None
}

/// What is told of a file that was read: its bytes, or why there are none.
pub proof fn read_is_told(path: Seq<char>, data: Vec<u8>, e: String)
    ensures
        ({
            let r = read_result(path, ReadOutcome::Data(data));
            worked(r, path) && r.content == Some(base64_text(data@)) && r.entries is None
                && r.new_path is None
        }),
        went_wrong(read_result(path, ReadOutcome::Unresolved), path, "Invalid path"@),
        went_wrong(read_result(path, ReadOutcome::NotAFile), path, "Path is not a file"@),
        went_wrong(
            read_result(path, ReadOutcome::Failed(e)),
            path,
            "Failed to read file: "@ + e@,
        ),
{
}

/// What is told of a file that was to be written.
pub proof fn write_is_told(path: Seq<char>, e: String)
    ensures
        ({
            let r = write_result(path, WriteOutcome::Written);
            worked(r, path) && r.content is None && r.entries is None && r.new_path is None
        }),
        went_wrong(write_result(path, WriteOutcome::Unresolved), path, "Invalid path"@),
        went_wrong(
            write_result(path, WriteOutcome::NoParent(e)),
            path,
            "Failed to create parent directory: "@ + e@,
        ),
        went_wrong(
            write_result(path, WriteOutcome::Failed(e)),
            path,
            "Failed to write file: "@ + e@,
        ),
        worked(write_bytes_result(path, true, None), path),
        went_wrong(write_bytes_result(path, false, None), path, "Invalid path"@),
        went_wrong(
            write_bytes_result(path, true, Some(e@)),
            path,
            "Failed to write file: "@ + e@,
        ),
{
}

/// What is told of what was to be deleted, made or renamed.
pub proof fn change_is_told(path: Seq<char>, to: Seq<char>, e: String)
    ensures
        worked(delete_result(path, None), path),
        went_wrong(delete_result(path, Some(e@)), path, "Failed to delete: "@ + e@),
        worked(create_result(path, true, None), path),
        went_wrong(create_result(path, false, None), path, "Invalid path"@),
        went_wrong(create_result(path, true, Some(e@)), path, e@),
        worked(rename_result(path, to, RenameOutcome::Renamed), path),
        rename_result(path, to, RenameOutcome::Renamed).new_path == Some(to),
        went_wrong(
            rename_result(path, to, RenameOutcome::NoSource),
            path,
            "Source path resolution failed"@,
        ),
        went_wrong(
            rename_result(path, to, RenameOutcome::NoDestination),
            path,
            "Destination path resolution failed"@,
        ),
        went_wrong(
            rename_result(path, to, RenameOutcome::Failed(e)),
            path,
            "Failed to rename: "@ + e@,
        ),
        rename_result(path, to, RenameOutcome::Failed(e)).new_path == Some(to),
{
}

/// The reply to a file operation is a `fs:result` of the agent's session that carries the result,
/// under the id of the request that asked for it.
pub proof fn file_reply_carries_the_result(
    sid: Seq<char>,
    r: FsResultView,
    request_id: Option<Seq<char>>,
)
    ensures
        ({
            let m = fs_reply(sid, r, request_id);
            &&& m.msg_type == "fs:result"@
            &&& m.session_id == sid
            &&& m.payload.bool_field("success"@) == Some(r.success)
            &&& m.payload.str_field("error"@) == r.error
            &&& m.payload.str_field("content"@) == r.content
            &&& m.payload.str_field("path"@) == r.path
            &&& m.payload.str_field("new_path"@) == r.new_path
            &&& m.payload.str_field("_mcp_request_id"@) == request_id
            &&& request_id is None ==> m.payload.get("_mcp_request_id"@) is None
            &&& r.entries is None ==> m.payload.get("entries"@) is None
            &&& r.entries matches Some(es) ==> {
                &&& m.payload.get("entries"@) matches Some(JsonView::Arr(items))
                    && items.len() == es.len() && forall|i: int|
                    0 <= i < es.len() ==> #[trigger] items[i] == es[i].json()
            }
        }),
{
    reveal_strlit("success");
    reveal_strlit("error");
    reveal_strlit("entries");
    reveal_strlit("content");
    reveal_strlit("path");
    reveal_strlit("new_path");
    reveal_strlit("_mcp_request_id");
    assert("success"@.len() != "error"@.len());
    assert("success"@[0] != "entries"@[0]);
    assert("success"@[0] != "content"@[0]);
    assert("success"@.len() != "path"@.len());
    assert("success"@.len() != "new_path"@.len());
    assert("success"@.len() != "_mcp_request_id"@.len());
    assert("error"@.len() != "entries"@.len());
    assert("error"@.len() != "content"@.len());
    assert("error"@.len() != "path"@.len());
    assert("error"@.len() != "new_path"@.len());
    assert("error"@.len() != "_mcp_request_id"@.len());
    assert("entries"@[0] != "content"@[0]);
    assert("entries"@.len() != "path"@.len());
    assert("entries"@.len() != "new_path"@.len());
    assert("entries"@.len() != "_mcp_request_id"@.len());
    assert("content"@.len() != "path"@.len());
    assert("content"@.len() != "new_path"@.len());
    assert("content"@.len() != "_mcp_request_id"@.len());
    assert("path"@.len() != "new_path"@.len());
    assert("path"@.len() != "_mcp_request_id"@.len());
    assert("new_path"@.len() != "_mcp_request_id"@.len());
}

/// What is written is the bytes that the content decodes to, and nothing is written where the
/// request is about no path or the content is no base64.
pub proof fn write_is_planned(path: Seq<char>, content: Seq<char>, data: Seq<u8>)
    ensures
        base64_bytes(content) == Some(data) ==> write_plan(path, true, content)
            == WritePlanView::Write(data),
        base64_bytes(content) is None ==> (write_plan(
            path,
            true,
            content,
        ) matches WritePlanView::Refused(r) && went_wrong(r, path, "Invalid base64 content"@)),
        write_plan(path, false, content) matches WritePlanView::Refused(r) && went_wrong(
            r,
            path,
            "Invalid path"@,
        ),
{
}

/// A request to read is answered with one message where the file is at most 262144 bytes, or where
/// it could not be read, and that message carries what is told of it.
pub proof fn small_read_is_one_message(
    sid: Seq<char>,
    path: Seq<char>,
    outcome: ReadOutcome,
    id: Option<Seq<char>>,
)
    requires
        outcome matches ReadOutcome::Data(data) ==> data@.len() <= 262144,
    ensures
        ({
            let all = read_replies(sid, path, outcome, id);
            let r = read_result(path, outcome);
            &&& all.len() == 1
            &&& all[0].msg_type == "fs:result"@ && all[0].session_id == sid
            &&& all[0].payload.bool_field("success"@) == Some(r.success)
            &&& all[0].payload.str_field("error"@) == r.error
            &&& all[0].payload.str_field("content"@) == r.content
            &&& all[0].payload.str_field("path"@) == r.path
            &&& all[0].payload.str_field("_mcp_request_id"@) == id
            &&& all[0].payload.get("chunk_index"@) is None
        }),
{
    file_reply_carries_the_result(sid, read_result(path, outcome), id);
    reveal_strlit("chunk_index");
    reveal_strlit("success");
    reveal_strlit("error");
    reveal_strlit("entries");
    reveal_strlit("content");
    reveal_strlit("path");
    reveal_strlit("new_path");
    reveal_strlit("_mcp_request_id");
    assert("chunk_index"@.len() != "success"@.len());
    assert("chunk_index"@.len() != "error"@.len());
    assert("chunk_index"@.len() != "entries"@.len());
    assert("chunk_index"@.len() != "content"@.len());
    assert("chunk_index"@.len() != "path"@.len());
    assert("chunk_index"@.len() != "new_path"@.len());
    assert("chunk_index"@.len() != "_mcp_request_id"@.len());
}

/// A file of more than 262144 bytes is answered with a message for each such part of it, each under
/// the path and the request that asked, with its number, their count and its bytes.
pub proof fn large_read_is_several_messages(
    sid: Seq<char>,
    path: Seq<char>,
    data: Vec<u8>,
    id: Option<Seq<char>>,
    i: nat,
)
    requires
        data@.len() > 262144,
        i * 262144 < data@.len(),
    ensures
        ({
            let all = read_replies(sid, path, ReadOutcome::Data(data), id);
            let end = if (i + 1) * 262144 < data@.len() {
                (i + 1) * 262144int
            } else {
                data@.len() as int
            };
            &&& i < all.len()
            &&& (all.len() - 1) * 262144 < data@.len() <= all.len() * 262144
            &&& all[i as int].msg_type == "fs:result"@ && all[i as int].session_id == sid
            &&& ({
                let p = all[i as int].payload;
                &&& p.bool_field("success"@) == Some(true)
                &&& p.str_field("path"@) == Some(path)
                &&& p.str_field("_mcp_request_id"@) == id
                &&& p.str_field("content"@) == Some(
                    base64_text(data@.subrange(i * 262144int, end)),
                )
                &&& p.get("chunk_index"@) == Some(JsonView::Int(i as int))
                &&& p.get("total_chunks"@) == Some(JsonView::Int(all.len() as int))
            })
        }),
{
    reveal_strlit("success");
    reveal_strlit("path");
    reveal_strlit("content");
    reveal_strlit("chunk_index");
    reveal_strlit("total_chunks");
    reveal_strlit("_mcp_request_id");
    assert("success"@.len() != "path"@.len());
    assert("success"@[0] != "content"@[0]);
    assert("success"@.len() != "chunk_index"@.len());
    assert("success"@.len() != "total_chunks"@.len());
    assert("success"@.len() != "_mcp_request_id"@.len());
    assert("path"@.len() != "content"@.len());
    assert("path"@.len() != "chunk_index"@.len());
    assert("path"@.len() != "total_chunks"@.len());
    assert("path"@.len() != "_mcp_request_id"@.len());
    assert("content"@.len() != "chunk_index"@.len());
    assert("content"@.len() != "total_chunks"@.len());
    assert("content"@.len() != "_mcp_request_id"@.len());
    assert("chunk_index"@.len() != "total_chunks"@.len());
    assert("chunk_index"@.len() != "_mcp_request_id"@.len());
    assert("total_chunks"@.len() != "_mcp_request_id"@.len());
    crate::laws::upkeep::chunks_are_cut(data@, i);
    let n = data@.len();
    let count = (n + 262143) as nat / 262144;
    assert((count - 1) * 262144 < n <= count * 262144) by (nonlinear_arith)
        requires
            count == (n + 262143) as nat / 262144,
            n > 0,
    ;
    assert(data@.skip(i * 262144int) =~= data@.subrange(i * 262144int, n as int));
}

// ---- listings ----
/// What is told of an entry of a directory: its name, its path, its size, whether it is a
/// directory, its permission bits and the numbers of its owner.
pub proof fn entry_is_told(e: RawEntryView)
    ensures
        ({
            let f = entry_of(e);
            &&& f.name == e.name
            &&& f.path == e.path
            &&& f.size == e.size
            &&& e.is_dir ==> f.entry_type == "directory"@
            &&& !e.is_dir ==> f.entry_type == "file"@
            &&& f.owner == decimal(e.uid as nat) + ":"@ + decimal(e.gid as nat)
            &&& f.mode.len() == 10
            &&& e.is_dir ==> f.mode[0] == 'd'
            &&& !e.is_dir && e.is_symlink && e.mode is Some ==> f.mode[0] == 'l'
            &&& !e.is_dir && !e.is_symlink ==> f.mode[0] == '-'
        }),
{
}

/// The permission bits of an entry are written from the highest to the lowest: reading, writing and
/// running for the owner, the group and the others, and a dash for a bit that is not set.
pub proof fn mode_shows_each_bit(is_dir: bool, is_symlink: bool, m: u32)
    ensures
        ({
            let t = mode_text(is_dir, is_symlink, Some(m));
            &&& t[1] == if (m >> 8) & 1 == 1 { 'r' } else { '-' }
            &&& t[2] == if (m >> 7) & 1 == 1 { 'w' } else { '-' }
            &&& t[3] == if (m >> 6) & 1 == 1 { 'x' } else { '-' }
            &&& t[4] == if (m >> 5) & 1 == 1 { 'r' } else { '-' }
            &&& t[5] == if (m >> 4) & 1 == 1 { 'w' } else { '-' }
            &&& t[6] == if (m >> 3) & 1 == 1 { 'x' } else { '-' }
            &&& t[7] == if (m >> 2) & 1 == 1 { 'r' } else { '-' }
            &&& t[8] == if (m >> 1) & 1 == 1 { 'w' } else { '-' }
            &&& t[9] == if m & 1 == 1 { 'x' } else { '-' }
        }),
        forall|i: int|
            1 <= i < 10 ==> #[trigger] mode_text(is_dir, is_symlink, None)[i] == '-',
{
    assert(((m & 256 != 0) <==> ((m >> 8) & 1 == 1)) && ((m & 128 != 0) <==> ((m >> 7) & 1 == 1))
        && ((m & 64 != 0) <==> ((m >> 6) & 1 == 1)) && ((m & 32 != 0) <==> ((m >> 5) & 1 == 1))
        && ((m & 16 != 0) <==> ((m >> 4) & 1 == 1)) && ((m & 8 != 0) <==> ((m >> 3) & 1 == 1))
        && ((m & 4 != 0) <==> ((m >> 2) & 1 == 1)) && ((m & 2 != 0) <==> ((m >> 1) & 1 == 1)) && ((m
        & 1 != 0) <==> (m & 1 == 1))) by (bit_vector);
}

/// One text comes before another where, at the first place in which they differ, it has the lower
/// character, or where it is its beginning.
pub proof fn texts_are_ordered(a: Seq<char>, b: Seq<char>, k: int)
    requires
        0 <= k <= a.len(),
        k < b.len(),
        a.take(k) == b.take(k),
        k == a.len() || a[k] < b[k],
    ensures
        text_less(a, b),
        !text_less(b, a),
    decreases k,
{
    if k > 0 {
        assert(a[0] == a.take(k)[0] && b[0] == b.take(k)[0]);
        let x = a.skip(1);
        let y = b.skip(1);
        assert(x.take(k - 1) =~= a.take(k).skip(1));
        assert(y.take(k - 1) =~= b.take(k).skip(1));
        texts_are_ordered(x, y, k - 1);
    }
}

/// A directory is told as its entries, each once: all directories before all files, and by name
/// within each kind.
pub proof fn listing_is_told(
    user_path: Seq<char>,
    path: String,
    entries: Vec<RawEntry>,
    e: String,
    i: int,
    j: int,
)
    ensures
        ({
            let r = list_result(user_path, ListOutcome::Listed { path, entries });
            &&& worked(r, path@) && r.content is None && r.new_path is None
            &&& r.entries matches Some(es) && {
                &&& es.len() == entries@.len()
                &&& es.to_multiset() == entries@.map_values(
                    |x: RawEntry| entry_of(x@),
                ).to_multiset()
                &&& 0 <= i < j < es.len() ==> {
                    &&& es[j].entry_type == "directory"@ ==> es[i].entry_type == "directory"@
                    &&& es[i].entry_type == es[j].entry_type ==> !text_less(es[j].name, es[i].name)
                }
            }
        }),
        went_wrong(list_result(user_path, ListOutcome::Unresolved), user_path, "Invalid path"@),
        went_wrong(
            list_result(user_path, ListOutcome::Failed(e)),
            user_path,
            "Failed to list directory: "@ + e@,
        ),
{
    let raw = raw_view(entries@);
    let es = listing(raw);
    listing_is_ordered(raw);
    assert(raw.map_values(|x: RawEntryView| entry_of(x)) =~= entries@.map_values(
        |x: RawEntry| entry_of(x@),
    ));
    if 0 <= i < j < es.len() {
        assert(!entry_less(es[j], es[i]));
        lemma_kinds(raw);
        reveal_strlit("directory");
        reveal_strlit("file");
        assert("directory"@.len() != "file"@.len());
        assert(es.contains(es[i]) && es.contains(es[j]));
        if es[j].entry_type == "directory"@ && es[i].entry_type == "file"@ {
            texts_are_ordered("directory"@, "file"@, 0);
        }
    }
}

proof fn lemma_kinds(raw: Seq<RawEntryView>)
    ensures
        forall|i: int|
            0 <= i < listing(raw).len() ==> (#[trigger] listing(raw)[i]).entry_type == "directory"@
                || listing(raw)[i].entry_type == "file"@,
{
    listing_is_ordered(raw);
    let told = raw.map_values(|e: RawEntryView| entry_of(e));
    let es = listing(raw);
    broadcast use vstd::seq_lib::group_to_multiset_ensures;

    assert forall|i: int| 0 <= i < es.len() implies (#[trigger] es[i]).entry_type == "directory"@
        || es[i].entry_type == "file"@ by {
        assert(es.contains(es[i]));
        assert(es.to_multiset().count(es[i]) > 0);
        assert(told.to_multiset().count(es[i]) > 0);
        assert(told.contains(es[i]));
        let k = choose|k: int| 0 <= k < told.len() && told[k] == es[i];
        assert(told[k] == entry_of(raw[k]));
    }
}

// ---- paths ----
/// An absolute path is taken as it is; any other is taken under the root, without the separators
/// that it starts with.
pub proof fn request_names_its_path(path: Seq<char>, seps: Seq<char>, rest: Seq<char>)
    requires
        forall|i: int| 0 <= i < seps.len() ==> #[trigger] seps[i] == '/' || seps[i] == '\\',
        rest.len() > 0 ==> rest[0] != '/' && rest[0] != '\\',
    ensures
        candidate_path(path, true) == CandidateView::Absolute(path),
        candidate_path(seps + rest, false) == CandidateView::UnderRoot(rest),
{
    let s = seps + rest;
    assert forall|j: int| 0 <= j < seps.len() implies crate::agent::fs::is_sep()(
        #[trigger] s[j],
    ) by {
        assert(s[j] == seps[j]);
    }
    if rest.len() > 0 {
        assert(s[seps.len() as int] == rest[0]);
    }
    crate::text::lemma_without_leading_at(s, crate::agent::fs::is_sep(), seps.len() as int);
    assert(s.skip(seps.len() as int) =~= rest);
}

/// A path that exists is the one that is meant; one that does not exist is meant where its parent
/// does. Without a root there is none.
pub proof fn existing_path_is_meant(path: Seq<char>, lookup: LookupView)
    ensures
        resolved(true, LookupView::Found(path)) == Some(path),
        resolved(true, LookupView::Missing { path, parent_found: true }) == Some(path),
        resolved(true, LookupView::Missing { path, parent_found: false }) is None,
        resolved(false, lookup) is None,
{
}

/// Splitting a text at a separator splits what is before it and what is after it.
pub proof fn split_splits_both_sides(a: Seq<char>, c: char, b: Seq<char>)
    ensures
        split_on(a + seq![c] + b, c) == split_on(a, c) + split_on(b, c),
        split_on(a, c).len() > 0,
    decreases b.len(),
{
    lemma_split_some(a, c);
    let s = a + seq![c] + b;
    if b.len() == 0 {
        assert(s =~= a.push(c));
        assert(s.drop_last() =~= a);
        assert(split_on(a, c).push(Seq::<char>::empty()) =~= split_on(a, c) + split_on(b, c));
    } else {
        let init = b.drop_last();
        split_splits_both_sides(a, c, init);
        lemma_split_some(init, c);
        assert(s.drop_last() =~= a + seq![c] + init);
        assert(s.last() == b.last());
        let x = split_on(a, c);
        let y = split_on(init, c);
        if b.last() == c {
            assert((x + y).push(Seq::<char>::empty()) =~= x + y.push(Seq::<char>::empty()));
        } else {
            assert((x + y).last() == y.last());
            assert((x + y).drop_last() =~= x + y.drop_last());
            let piece = y.last().push(b.last());
            assert((x + y.drop_last()).push(piece) =~= x + y.drop_last().push(piece));
        }
    }
}

proof fn lemma_split_some(a: Seq<char>, c: char)
    ensures
        split_on(a, c).len() > 0,
    decreases a.len(),
{
    if a.len() > 0 {
        lemma_split_some(a.drop_last(), c);
    }
}

/// A text without the separator is one piece.
pub proof fn split_keeps_a_piece(a: Seq<char>, c: char)
    requires
        !a.contains(c),
    ensures
        split_on(a, c) == seq![a],
    decreases a.len(),
{
    if a.len() > 0 {
        let init = a.drop_last();
        assert(!init.contains(c)) by {
            if init.contains(c) {
                let i = choose|i: int| 0 <= i < init.len() && init[i] == c;
                assert(a[i] == c);
            }
        }
        split_keeps_a_piece(init, c);
        assert(a.last() != c) by {
            assert(a.contains(a[a.len() - 1]));
        }
        assert(init.push(a.last()) =~= a);
        assert(split_on(a, c) =~= seq![a]);
    } else {
        assert(a =~= Seq::<char>::empty());
    }
}

proof fn lemma_components_add(x: Seq<Seq<char>>, y: Seq<Seq<char>>)
    requires
        x.len() > 0,
    ensures
        components(x).is_prefix_of(components(x + y)),
    decreases y.len(),
{
    if y.len() == 0 {
        assert(x + y =~= x);
    } else {
        lemma_components_add(x, y.drop_last());
        assert((x + y).drop_last() =~= x + y.drop_last());
        let a = components(x);
        let b = components(x + y.drop_last());
        let all = components(x + y);
        assert(b.is_prefix_of(all));
        assert forall|i: int| 0 <= i < a.len() implies a[i] == all[i] by {
            assert(a[i] == b[i]);
        }
        assert(a =~= all.subrange(0, a.len() as int));
    }
}

/// What is below a directory is under it.
pub proof fn child_is_under(dir: Seq<char>, rest: Seq<char>)
    requires
        dir.len() > 0,
    ensures
        path_under(dir + seq!['/'] + rest, dir),
        path_under(dir, dir),
        same_path(dir, dir),
{
    split_splits_both_sides(dir, '/', rest);
    lemma_components_add(split_on(dir, '/'), split_on(rest, '/'));
    assert((dir + seq!['/'] + rest)[0] == dir[0]);
}

/// A slash at the end of a path does not matter.
pub proof fn trailing_slash_does_not_matter(path: Seq<char>)
    requires
        path.len() > 0,
    ensures
        same_path(path + seq!['/'], path),
{
    let none = Seq::<char>::empty();
    split_splits_both_sides(path, '/', none);
    let x = split_on(path, '/');
    let y = split_on(none, '/');
    assert(path + seq!['/'] + none =~= path + seq!['/']);
    assert((x + y).drop_last() =~= x);
    assert((x + y).last().len() == 0);
    assert((path + seq!['/'])[0] == path[0]);
}

/// Names directly under the top are different places unless they are the same name; none is under
/// another, not even where its name begins with the other.
pub proof fn other_names_are_elsewhere(a: Seq<char>, b: Seq<char>)
    requires
        a.len() > 0 && !a.contains('/') && a != "."@,
        b.len() > 0 && !b.contains('/') && b != "."@,
    ensures
        path_under(seq!['/'] + a, seq!['/'] + b) == (a == b),
        same_path(seq!['/'] + a, seq!['/'] + b) == (a == b),
        !path_under(a, seq!['/'] + b),
        !same_path(seq!['/'] + a, a),
{
    lemma_top(a);
    lemma_top(b);
    assert(a.contains(a[0]));
    assert(parts(seq!['/'] + a)[0] == a);
    assert(parts(seq!['/'] + b)[0] == b);
}

proof fn lemma_top(a: Seq<char>)
    requires
        a.len() > 0 && !a.contains('/') && a != "."@,
    ensures
        parts(seq!['/'] + a) == seq![a],
{
    let none = Seq::<char>::empty();
    split_splits_both_sides(none, '/', a);
    split_keeps_a_piece(a, '/');
    assert(none + seq!['/'] + a =~= seq!['/'] + a);
    let pieces = split_on(seq!['/'] + a, '/');
    assert(split_on(none, '/') == seq![none]);
    assert(pieces =~= seq![none, a]);
    assert(pieces.drop_last() =~= seq![none]);
    assert(seq![none].drop_last() =~= Seq::<Seq<char>>::empty());
    assert(seq![none].last() == none);
    assert(components(Seq::<Seq<char>>::empty()) == Seq::<Seq<char>>::empty());
    assert(components(seq![none]) == Seq::<Seq<char>>::empty());
    assert(components(pieces) =~= seq![a]);
}

/// The root of the file manager is not deleted, however it is written; a request about no path is
/// refused. Anything else is deleted: a directory with all in it, a file by itself.
pub proof fn delete_spares_the_root(
    user_path: Seq<char>,
    path: Seq<char>,
    root: Seq<char>,
    root_canonical: Seq<char>,
    is_dir: bool,
)
    requires
        root.len() > 0,
        root_canonical.len() > 0,
    ensures
        delete_plan(user_path, None, root, root_canonical, is_dir) matches DeletePlanView::Refused(
            r,
        ) && went_wrong(r, user_path, "Invalid path"@),
        delete_plan(
            user_path,
            Some(root + seq!['/']),
            root,
            root_canonical,
            is_dir,
        ) matches DeletePlanView::Refused(r) && went_wrong(
            r,
            user_path,
            "Cannot delete root directory"@,
        ),
        delete_plan(
            user_path,
            Some(root_canonical),
            root,
            root_canonical,
            is_dir,
        ) matches DeletePlanView::Refused(r) && went_wrong(
            r,
            user_path,
            "Cannot delete root directory"@,
        ),
        !same_path(path, root) && !same_path(path, root_canonical) ==> delete_plan(
            user_path,
            Some(path),
            root,
            root_canonical,
            is_dir,
        ) == if is_dir {
            DeletePlanView::RemoveDir
        } else {
            DeletePlanView::RemoveFile
        },
{
    trailing_slash_does_not_matter(root);
}

// ---- uploads ----
/// An upload message writes the bytes that its content decodes to, to the path that it names: the
/// first chunk over what the file held, the others at its end; the last one is told of. Content
/// that is no base64 is refused.
pub proof fn upload_message_writes_its_chunk(p: JsonView, content: Seq<char>, path: Seq<char>)
    requires
        p.str_field("content"@) == Some(content),
        p.str_field("final_path"@) == Some(path),
    ensures
        base64_bytes(content) matches Some(b) ==> {
            &&& upload_action(p) matches UploadActionView::Chunk {
                final_path,
                data,
                truncate,
                last,
            } && {
                &&& final_path == path
                &&& data == b
                &&& p.u64_field("chunk_index"@) matches Some(i) ==> {
                    &&& truncate == (i == 0)
                    &&& p.u64_field("total_chunks"@) matches Some(n) ==> last == (i + 1 >= n)
                    &&& p.u64_field("total_chunks"@) is None ==> last
                }
                &&& p.u64_field("chunk_index"@) is None ==> truncate
                &&& p.u64_field("chunk_index"@) is None && p.u64_field("total_chunks"@) is Some
                    ==> last == (p.u64_field("total_chunks"@)->0 <= 1)
                &&& p.u64_field("chunk_index"@) is None && p.u64_field("total_chunks"@) is None
                    ==> truncate && last
            }
        },
        base64_bytes(content) is None ==> (upload_action(p) matches UploadActionView::Refused(r)
            && went_wrong(r, path, "Invalid base64 content"@)),
{
}

/// An upload message without content moves a file from the upload directory, and from nowhere else.
pub proof fn upload_takes_from_its_directory(p: JsonView, name: Seq<char>, path: Seq<char>)
    requires
        p.get("content"@) is None,
        p.str_field("final_path"@) == Some(path),
    ensures
        p.str_field("temp_path"@) == Some("/tmp/opencode/uploads/"@ + name) ==> upload_action(p)
            == (UploadActionView::FromTemp {
            temp_path: "/tmp/opencode/uploads/"@ + name,
            final_path: path,
        }),
        p.get("temp_path"@) is None ==> (upload_action(p) matches UploadActionView::Refused(r)
            && went_wrong(r, path, "Invalid temporary upload path"@)),
        name.len() > 0 && !name.contains('/') && name != "."@ && p.str_field("temp_path"@) == Some(
            seq!['/'] + name,
        ) ==> (upload_action(p) matches UploadActionView::Refused(r) && went_wrong(
            r,
            path,
            "Invalid temporary upload path"@,
        )),
{
    let dir = "/tmp/opencode/uploads/"@;
    let bare = "/tmp/opencode/uploads"@;
    reveal_strlit("/tmp/opencode/uploads/");
    reveal_strlit("/tmp/opencode/uploads");
    reveal_strlit("");
    assert(dir =~= bare + seq!['/']);
    assert(bare + seq!['/'] + name =~= dir + name);
    child_is_under(bare, name);
    trailing_slash_does_not_matter(bare);
    assert(dir[0] == '/' && bare[0] == '/');
    assert(path_under(dir + name, dir));
    assert(!path_under(""@, dir));
    if name.len() > 0 && !name.contains('/') && name != "."@ {
        lemma_top(name);
        lemma_two_parts();
    }
}

proof fn lemma_two_parts()
    ensures
        parts("/tmp/opencode/uploads/"@).len() >= 2,
{
    reveal_strlit("/tmp/opencode/uploads/");
    let a = "tmp"@;
    let b = "opencode"@;
    let c = "uploads/"@;
    reveal_strlit("tmp");
    reveal_strlit("opencode");
    reveal_strlit("uploads/");
    reveal_strlit(".");
    let none = Seq::<char>::empty();
    let all = "/tmp/opencode/uploads/"@;
    let rest1 = b + seq!['/'] + c;
    let rest0 = a + seq!['/'] + rest1;
    assert(all =~= none + seq!['/'] + rest0);
    split_splits_both_sides(none, '/', rest0);
    split_splits_both_sides(a, '/', rest1);
    split_splits_both_sides(b, '/', c);
    split_keeps_a_piece(a, '/');
    split_keeps_a_piece(b, '/');
    assert(split_on(none, '/') == seq![none]);
    let x = seq![none, a, b];
    let y = split_on(c, '/');
    assert(split_on(all, '/') =~= x + y);
    assert(x.drop_last() =~= seq![none, a]);
    assert(seq![none, a].drop_last() =~= seq![none]);
    assert(seq![none].drop_last() =~= Seq::<Seq<char>>::empty());
    assert(components(Seq::<Seq<char>>::empty()) == Seq::<Seq<char>>::empty());
    assert(components(seq![none]) == Seq::<Seq<char>>::empty());
    assert(a.len() != "."@.len() && b.len() != "."@.len());
    assert(components(seq![none, a]) =~= seq![a]);
    assert(components(x) =~= seq![a, b]);
    lemma_components_add(x, y);
}

} // verus!
