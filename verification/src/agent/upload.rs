//! Uploads as the agent receives them.
use vstd::prelude::*;

use crate::agent::fs::{
    decode_b64, failed, fs_failed, is_path_under, path_under,
};
use crate::json::{Json, JsonView};
use crate::outside::{base64_bytes, base64_text};
use crate::payload::{FsResultPayload, FsResultView};
use crate::relay::upload::{
    carry, chunk, chunk_count, chunk_doc, chunks_make_the_file, joined, sent,
    upload_carries_the_file, upload_events, UploadView,
};

verus! {

/// What is to be done about an upload message.
pub enum UploadAction {
    Refused(FsResultPayload),
    /// Write a chunk: over what the file held before, or at its end. After the last chunk the
    /// requester is told.
    Chunk { final_path: String, data: Vec<u8>, truncate: bool, last: bool },
    /// Move a file of this machine to its place.
    FromTemp { temp_path: String, final_path: String },
}

pub enum UploadActionView {
    Refused(FsResultView),
    Chunk { final_path: Seq<char>, data: Seq<u8>, truncate: bool, last: bool },
    FromTemp { temp_path: Seq<char>, final_path: Seq<char> },
}

impl View for UploadAction {
    type V = UploadActionView;

    open spec fn view(&self) -> UploadActionView {
        match self {
            UploadAction::Refused(p) => UploadActionView::Refused(p@),
            UploadAction::Chunk { final_path, data, truncate, last } => UploadActionView::Chunk {
                final_path: final_path@,
                data: data@,
                truncate: *truncate,
                last: *last,
            },
            UploadAction::FromTemp { temp_path, final_path } => UploadActionView::FromTemp {
                temp_path: temp_path@,
                final_path: final_path@,
            },
        }
    }
}

pub open spec fn u64_or(j: JsonView, k: Seq<char>, d: u64) -> u64 {
    match j.u64_field(k) {
        Some(n) => n,
        None => d,
    }
}

/// What an upload message asks for: to write the chunk that it carries, or to take a file from the
/// upload directory of this machine. Anything else is refused.
pub open spec fn upload_action(payload: JsonView) -> UploadActionView {
    let final_path = payload.str_or("final_path"@, ""@);
    match payload.str_field("content"@) {
        Some(content) => match base64_bytes(content) {
            Some(data) => {
                let index = u64_or(payload, "chunk_index"@, 0);
                let total = u64_or(payload, "total_chunks"@, 1);
                UploadActionView::Chunk {
                    final_path,
                    data,
                    truncate: index == 0,
                    last: index + 1 >= total,
                }
            },
            None => UploadActionView::Refused(fs_failed("Invalid base64 content"@, final_path)),
        },
        None => {
            let temp_path = payload.str_or("temp_path"@, ""@);
            if path_under(temp_path, "/tmp/opencode/uploads/"@) {
                UploadActionView::FromTemp { temp_path, final_path }
            } else {
                UploadActionView::Refused(
                    fs_failed("Invalid temporary upload path"@, final_path),
                )
            }
        },
    }
}

/// Decides what an upload message asks for.
pub fn plan_upload(payload: &Json) -> (r: UploadAction)
    ensures
        r@ == upload_action(payload@),
{
    let final_path = payload.str_or("final_path", "");
    match payload.str_field("content") {
        Some(content) => match decode_b64(content) {
            Some(data) => {
                let index: u64 = match payload.u64_field("chunk_index") {
                    Some(n) => n,
                    None => 0,
                };
                let total: u64 = match payload.u64_field("total_chunks") {
                    Some(n) => n,
                    None => 1,
                };
                UploadAction::Chunk {
                    final_path: final_path.to_owned(),
                    data,
                    truncate: index == 0,
                    last: total == 0 || index >= total - 1,
                }
            },
            None => UploadAction::Refused(failed("Invalid base64 content", final_path)),
        },
        None => {
            let temp_path = payload.str_or("temp_path", "");
            if is_path_under(temp_path, "/tmp/opencode/uploads/") {
                UploadAction::FromTemp {
                    temp_path: temp_path.to_owned(),
                    final_path: final_path.to_owned(),
                }
            } else {
                UploadAction::Refused(failed("Invalid temporary upload path", final_path))
            }
        },
    }
}

/// What a file holds after an upload action.
pub open spec fn after_chunk(file: Seq<u8>, action: UploadActionView) -> Seq<u8> {
    match action {
        UploadActionView::Chunk { data, truncate, .. } => if truncate {
            data
        } else {
            file + data
        },
        _ => file,
    }
}

/// What a file holds after the upload messages `docs` in order.
pub open spec fn after_chunks(file: Seq<u8>, docs: Seq<JsonView>) -> Seq<u8>
    decreases docs.len(),
{
    if docs.len() == 0 {
        file
    } else {
        after_chunk(
            after_chunks(file, docs.drop_last()),
            upload_action(docs.last().at("payload"@)),
        )
    }
}

proof fn lemma_chunk_doc(
    sid: Seq<char>,
    upload_id: Seq<char>,
    path: Seq<char>,
    content: Seq<char>,
    i: nat,
    n: nat,
    data: Seq<u8>,
)
    requires
        base64_bytes(content) == Some(data),
        i < n <= u64::MAX,
    ensures
        upload_action(chunk_doc(sid, upload_id, path, content, i, n).at("payload"@))
            == (UploadActionView::Chunk {
            final_path: path,
            data,
            truncate: i == 0,
            last: i + 1 == n,
        }),
{
    reveal_strlit("type");
    reveal_strlit("session_id");
    reveal_strlit("payload");
    reveal_strlit("upload_id");
    reveal_strlit("final_path");
    reveal_strlit("content");
    reveal_strlit("chunk_index");
    reveal_strlit("total_chunks");
    assert("content"@.len() != "chunk_index"@.len());
    assert("content"@.len() != "total_chunks"@.len());
    assert("final_path"@.len() != "content"@.len());
    assert("final_path"@.len() != "chunk_index"@.len());
    assert("final_path"@.len() != "total_chunks"@.len());
    assert("chunk_index"@.len() != "total_chunks"@.len());
}

proof fn lemma_after_chunks(
    file: Seq<u8>,
    docs: Seq<JsonView>,
    data: Seq<u8>,
    sid: Seq<char>,
    upload_id: Seq<char>,
    path: Seq<char>,
    contents: Seq<Seq<char>>,
    k: nat,
)
    requires
        carry(docs, data, sid, upload_id, path, contents),
        docs.len() <= u64::MAX,
        0 < k <= docs.len(),
    ensures
        after_chunks(file, docs.take(k as int)) == joined(data, k),
    decreases k,
{
    let m = (k - 1) as nat;
    let here = docs.take(k as int);
    assert(here.drop_last() =~= docs.take(m as int));
    assert(here.last() == docs[m as int]);
    lemma_chunk_doc(sid, upload_id, path, contents[m as int], m, docs.len(), chunk(data, m));
    if m > 0 {
        lemma_after_chunks(file, docs, data, sid, upload_id, path, contents, m);
    } else {
        assert(joined(data, 0) + chunk(data, 0) =~= chunk(data, 0));
        reveal_with_fuel(joined, 2);
    }
}

/// An upload arrives whole: the messages that carry the chunks of a file, taken in order, leave the
/// file holding exactly what was uploaded, whatever it held before.
pub proof fn upload_arrives_whole(
    file: Seq<u8>,
    docs: Seq<JsonView>,
    data: Seq<u8>,
    sid: Seq<char>,
    upload_id: Seq<char>,
    path: Seq<char>,
    contents: Seq<Seq<char>>,
)
    requires
        carry(docs, data, sid, upload_id, path, contents),
        data.len() > 0,
        docs.len() <= u64::MAX,
    ensures
        after_chunks(file, docs) == data,
{
    let n = docs.len();
    chunks_make_the_file(data, 0);
    assert(n > 0) by (nonlinear_arith)
        requires
            n == (data.len() + 262144 - 1) as nat / 262144,
            data.len() > 0,
    ;
    lemma_after_chunks(file, docs, data, sid, upload_id, path, contents, n);
    assert(docs.take(n as int) =~= docs);
}

/// A file that is uploaded through the relay is what the agent's machine holds in the end, whatever
/// the file held before, however its body was cut and however long the agent took.
pub proof fn uploaded_file_arrives(
    v: UploadView,
    pieces: Seq<usize>,
    data: Seq<u8>,
    waits: Seq<nat>,
    connection: u64,
    file: Seq<u8>,
)
    requires
        v == UploadView::begun(v.session_id, v.upload_id, v.path, v.limit),
        crate::relay::upload::total_size(pieces) == data.len(),
        0 < data.len() <= v.limit,
        forall|i: nat|
            i < chunk_count(data.len()) ==> base64_bytes(#[trigger] base64_text(chunk(data, i)))
                == Some(chunk(data, i)),
    ensures
        after_chunks(file, sent(v, upload_events(pieces, data, waits, connection))) == data,
{
    upload_carries_the_file(v, pieces, data, waits, connection);
    let docs = sent(v, upload_events(pieces, data, waits, connection));
    let contents = Seq::new(
        chunk_count(data.len()),
        |i: int| base64_text(chunk(data, i as nat)),
    );
    assert(docs.len() <= u64::MAX) by (nonlinear_arith)
        requires
            docs.len() == (data.len() + 262144 - 1) as nat / 262144,
            data.len() <= 0xffff_ffff_ffff_ffff,
    ;
    upload_arrives_whole(file, docs, data, v.session_id, v.upload_id, v.path, contents);
}

} // verus!
