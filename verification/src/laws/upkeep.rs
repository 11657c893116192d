//! How the relay is set up, what it keeps and forgets, and what it serves.
use axum::http::HeaderMap;
use vstd::prelude::*;
use vstd::utf8::*;

use crate::agent::output::{flushed, Pending};
use crate::agent::session::output_message;
use crate::json::JsonView;
use crate::laws::texts::occurrences_are_replaced;
use crate::outside::{base64_text, header_texts};
use crate::proto::Permission;
use crate::relay::config::{admin_route, config, ConfigError, RelayConfigView};
use crate::relay::events::{event_bytes, Events, EventsView};
use crate::relay::idle::{is_idle, reaped};
use crate::relay::recorder::{
    cast_name, event_line, header_line, terminal_data, RecordEventView, RecordStepView,
    RecorderView,
};
use crate::relay::state::RelayView;
use crate::relay::upload::{chunk, chunk_count, chunk_doc, temp_name, upload_gate, UploadGateView};
use crate::relay::web::{
    asked_installer, asset_name, installer, page_name, relay_url, resolved_asset,
};
use crate::relay::ws::counted;
use crate::text::decimal;

verus! {

// ---- options ----
/// A relay needs a server password. It has an admin panel only where a path for it is given, and
/// then needs a password for it; the administrator is named `admin` unless another name is given.
/// It records only where a directory is given. An option that is empty counts as not given.
pub proof fn options_are_read(
    auth: Option<Seq<char>>,
    path: Option<Seq<char>>,
    user: Option<Seq<char>>,
    pass: Option<Seq<char>>,
    dir: Option<Seq<char>>,
)
    ensures
        ({
            let r = config(auth, path, user, pass, dir);
            let has_auth = auth is Some && (auth->0).len() > 0;
            let has_path = path is Some && (path->0).len() > 0;
            let has_user = user is Some && (user->0).len() > 0;
            let has_pass = pass is Some && (pass->0).len() > 0;
            let has_dir = dir is Some && (dir->0).len() > 0;
            &&& !has_auth ==> r == Err::<RelayConfigView, ConfigError>(ConfigError::MissingAuth)
            &&& has_auth && has_path && !has_pass ==> r == Err::<RelayConfigView, ConfigError>(
                ConfigError::MissingAdminPass,
            )
            &&& has_auth && (!has_path || has_pass) ==> (r matches Ok(c) && {
                &&& c.auth == auth->0
                &&& has_dir ==> c.record_dir == dir
                &&& !has_dir ==> c.record_dir is None
                &&& !has_path ==> c.admin is None
                &&& has_path ==> (c.admin matches Some(a) && {
                    &&& a.path == path->0
                    &&& a.pass == pass->0
                    &&& has_user ==> a.user == user->0
                    &&& !has_user ==> a.user == "admin"@
                })
            })
        }),
        ConfigError::MissingAuth.text() == "Missing required --auth password"@,
        ConfigError::MissingAdminPass.text() == "--admin-path requires --admin-pass"@,
{
}

/// The admin panel is at its path, with one slash before it.
pub proof fn panel_is_at_its_path(p: Seq<char>)
    ensures
        p.len() > 0 && p[0] == '/' ==> admin_route(p) == p,
        p.len() == 0 || p[0] != '/' ==> admin_route(p) == "/"@ + p,
{
}

// ---- pages ----
/// A path asks for the asset that it names after its slashes, and the bare slash for the front
/// page. An asset answers for itself, and else the page of its name.
pub proof fn path_names_its_asset(name: Seq<char>, n: nat)
    requires
        name.len() > 0 ==> name[0] != '/',
    ensures
        name.len() > 0 ==> asset_name(Seq::new(n, |i: int| '/') + name) == name,
        asset_name(Seq::new(n, |i: int| '/')) == "index.html"@,
        page_name(name) == name + ".html"@,
        resolved_asset(name, true, false) == Some(name),
        resolved_asset(name, true, true) == Some(name),
        resolved_asset(name, false, true) == Some(name + ".html"@),
        resolved_asset(name, false, false) is None,
{
    let slashes = Seq::new(n, |i: int| '/');
    let all = slashes + name;
    assert forall|j: int| 0 <= j < n implies crate::relay::web::is_slash()(#[trigger] all[j]) by {
        assert(all[j] == slashes[j]);
    }
    if name.len() > 0 {
        assert(all[n as int] == name[0]);
    }
    crate::text::lemma_without_leading_at(all, crate::relay::web::is_slash(), n as int);
    assert(all.skip(n as int) =~= name);
    assert forall|j: int| 0 <= j < n implies crate::relay::web::is_slash()(
        #[trigger] slashes[j],
    ) by {}
    crate::text::lemma_without_leading_at(slashes, crate::relay::web::is_slash(), n as int);
    assert(slashes.skip(n as int).len() == 0);
}

/// An installer is its template with the relay's address in place of the mark: the host that the
/// request names, by https where the request came so, and else by http.
pub proof fn installer_names_the_relay(
    before: Seq<char>,
    after: Seq<char>,
    headers: HeaderMap,
    host: Seq<char>,
)
    requires
        !before.contains('_'),
        !after.contains('_'),
    ensures
        ({
            let url = relay_url(Some(host), None);
            &&& url == "http://"@ + host
            &&& relay_url(Some(host), Some("https"@)) == "https://"@ + host
            &&& relay_url(Some(host), Some("http"@)) == "http://"@ + host
            &&& relay_url(None, None) == "http://localhost"@
            &&& installer(before + "__RELAY_URL__"@ + after, url) == before + url + after
            &&& header_texts(headers).contains_key("host"@) && header_texts(headers)["host"@]
                == host && !header_texts(headers).contains_key("x-forwarded-proto"@)
                ==> asked_installer(before + "__RELAY_URL__"@ + after, headers) == before + url
                + after
            &&& header_texts(headers).contains_key("host"@) && header_texts(headers)["host"@]
                == host && header_texts(headers).contains_key("x-forwarded-proto"@)
                && header_texts(headers)["x-forwarded-proto"@] == "https"@ ==> asked_installer(
                before + "__RELAY_URL__"@ + after,
                headers,
            ) == before + ("https://"@ + host) + after
        }),
{
    reveal_strlit("__RELAY_URL__");
    reveal_strlit("http");
    reveal_strlit("https");
    reveal_strlit("://");
    reveal_strlit("http://");
    reveal_strlit("https://");
    reveal_strlit("localhost");
    reveal_strlit("http://localhost");
    assert("http"@.len() != "https"@.len());
    assert("http"@ + "://"@ =~= "http://"@);
    assert("https"@ + "://"@ =~= "https://"@);
    assert("http"@ + "://"@ + "localhost"@ =~= "http://localhost"@);
    let url = relay_url(Some(host), None);
    occurrences_are_replaced(before, "__RELAY_URL__"@, url, after);
    occurrences_are_replaced(after, "__RELAY_URL__"@, url, after);
    let secure = relay_url(Some(host), Some("https"@));
    occurrences_are_replaced(before, "__RELAY_URL__"@, secure, after);
    occurrences_are_replaced(after, "__RELAY_URL__"@, secure, after);
}

// ---- sessions that nobody uses ----
/// A session goes unheard for too long after thirty minutes, and not before.
pub proof fn idle_means_thirty_minutes(v: RelayView, sid: Seq<char>, now: u128)
    ensures
        is_idle(v, sid, now) <==> v.last_activity.contains_key(sid) && now > v.last_activity[sid]
            + 1_800_000_000_000,
{
}

/// A session with a fixed key is not removed for being idle; a temporary one is removed alone:
/// other sessions keep their channels, their events and what waits for them.
pub proof fn idle_session_goes_alone(v: RelayView, sid: Seq<char>, other: Seq<char>, r: Seq<char>)
    requires
        other != sid,
    ensures
        ({
            let w = reaped(v, sid);
            let temporary = v.registry.sessions.contains_key(sid)
                && v.registry.sessions[sid].is_temporary;
            &&& !temporary ==> w == v
            &&& temporary ==> {
                &&& !w.registry.sessions.contains_key(sid) && !w.channels.contains_key(sid)
                    && !w.buffers.contains_key(sid) && !w.last_activity.contains_key(sid)
                &&& w.channels.contains_key(other) == v.channels.contains_key(other)
                &&& v.channels.contains_key(other) ==> w.channels[other] == v.channels[other]
                &&& v.buffers.contains_key(other) ==> w.buffers.contains_key(other)
                    && w.buffers[other] == v.buffers[other]
                &&& w.pending.contains_key(r) <==> v.pending.contains_key(r) && v.pending[r] != sid
                &&& w.pending.contains_key(r) ==> w.pending[r] == v.pending[r]
                &&& w.registry.sessions.contains_key(other)
                    == v.registry.sessions.contains_key(other)
                &&& w.streams == v.streams && w.admin_sessions == v.admin_sessions && w.server_auth
                    == v.server_auth
            }
        }),
{
}

// ---- events ----
/// A buffer keeps every event while there are at most a thousand of them, of at most eight
/// mebibytes together; where there are more, the oldest go. The newest gets the next number.
pub proof fn buffer_keeps_what_fits(v: EventsView, msg: Seq<char>)
    requires
        v.last_id < u64::MAX,
    ensures
        ({
            let all = v.events.push(((v.last_id + 1) as u64, msg));
            let w = v.push(msg);
            &&& w.last_id == v.last_id + 1
            &&& all.len() <= 1000 && event_bytes(all) <= 8_388_608 ==> w.events == all
            &&& w.events.len() <= 1000 && event_bytes(w.events) <= 8_388_608
            &&& w.events.len() <= all.len() && w.events == all.skip(all.len() - w.events.len())
            &&& w.events.len() < all.len() ==> {
                let more = all.skip(all.len() - w.events.len() - 1);
                more.len() > 1000 || event_bytes(more) > 8_388_608
            }
        }),
{
    let all = v.events.push(((v.last_id + 1) as u64, msg));
    crate::relay::events::evict_keeps_newest(all);
    crate::relay::events::evict_is_tight(all);
}

/// The size of events is that of their texts in UTF-8.
pub proof fn events_are_measured(events: Events, id: u64, msg: Seq<char>)
    ensures
        event_bytes(events.push((id, msg))) == event_bytes(events) + encode_utf8(msg).len(),
        event_bytes(Seq::empty()) == 0,
{
    assert(events.push((id, msg)).drop_last() =~= events);
}

// ---- recordings ----
/// A recording begins with the session's first event and holds each event in turn; closing ends it.
pub proof fn recording_holds_each_event(r: RecorderView, sid: Seq<char>, ev: RecordEventView)
    ensures
        ({
            let w = r.record(sid, ev);
            &&& w.dir == r.dir
            &&& w.open == r.open.insert(sid)
            &&& r.open.contains(sid) ==> w.steps == r.steps + seq![RecordStepView::Append(sid, ev)]
            &&& !r.open.contains(sid) ==> w.steps == r.steps + seq![
                RecordStepView::Open(sid),
                RecordStepView::Append(sid, ev),
            ]
        }),
        ({
            let w = r.close(sid);
            &&& r.open.contains(sid) ==> w.open == r.open.remove(sid) && w.steps == r.steps + seq![
                RecordStepView::Close(sid),
            ] && w.dir == r.dir
            &&& !r.open.contains(sid) ==> w == r
        }),
{
    let w = r.record(sid, ev);
    if r.open.contains(sid) {
        assert(w.steps =~= r.steps + seq![RecordStepView::Append(sid, ev)]);
        assert(r.close(sid).steps =~= r.steps + seq![RecordStepView::Close(sid)]);
    } else {
        assert(w.steps =~= r.steps + seq![
            RecordStepView::Open(sid),
            RecordStepView::Append(sid, ev),
        ]);
    }
}

/// A cast file is named after its session and the second it begins. Its first line says which
/// version it is and how large the terminal is; each event is a line of its time, `o` for what the
/// terminal wrote or `i` for what was typed, and the text.
pub proof fn cast_file_is_written(sid: Seq<char>, at: u64, elapsed: Seq<char>, text: Seq<char>)
    ensures
        cast_name(sid, at) == sid + "_"@ + decimal(at as nat) + ".cast"@,
        header_line(at).get("version"@) == Some(JsonView::Int(2)),
        header_line(at).get("width"@) == Some(JsonView::Int(80)),
        header_line(at).get("height"@) == Some(JsonView::Int(24)),
        header_line(at).get("timestamp"@) == Some(JsonView::Int(at as int)),
        event_line(elapsed, RecordEventView::Output(text)) == JsonView::Arr(
            seq![JsonView::Float(elapsed), JsonView::Str("o"@), JsonView::Str(text)],
        ),
        event_line(elapsed, RecordEventView::Input(text)) == JsonView::Arr(
            seq![JsonView::Float(elapsed), JsonView::Str("i"@), JsonView::Str(text)],
        ),
{
    reveal_strlit("version");
    reveal_strlit("width");
    reveal_strlit("height");
    reveal_strlit("timestamp");
    assert("version"@.len() != "width"@.len());
    assert("version"@.len() != "height"@.len());
    assert("version"@.len() != "timestamp"@.len());
    assert("width"@.len() != "height"@.len());
    assert("width"@.len() != "timestamp"@.len());
    assert("height"@.len() != "timestamp"@.len());
}

/// Terminal data that is base64 says the text of its bytes, and any other says itself.
pub proof fn terminal_data_says(text: Seq<char>, raw: Seq<char>)
    ensures
        terminal_data(Some(encode_utf8(text)), raw) == text,
        terminal_data(None, raw) == raw,
{
    crate::laws::connection::text_is_read_back(text);
}

// ---- output ----
/// The output that waits goes out with one message for each tab that wrote something, in the order
/// of the tabs, and each carries what its tab wrote.
pub proof fn waiting_output_goes_out(p: Pending, sid: Seq<char>, tab: Seq<char>, data: Seq<u8>)
    ensures
        flushed(Seq::empty(), sid).len() == 0,
        data.len() == 0 ==> flushed(p.push((tab, data)), sid) == flushed(p, sid),
        data.len() > 0 ==> {
            let all = flushed(p.push((tab, data)), sid);
            &&& all.len() == flushed(p, sid).len() + 1
            &&& all.drop_last() == flushed(p, sid)
            &&& all.last().msg_type == "terminal:output"@
            &&& all.last().session_id == sid
            &&& all.last().payload.str_field("tab_id"@) == Some(tab)
            &&& all.last().payload.str_field("data"@) == Some(base64_text(data))
            &&& all.last().payload.get("_target_user_id"@) is None
        },
{
    reveal_strlit("data");
    reveal_strlit("tab_id");
    reveal_strlit("_target_user_id");
    assert("data"@.len() != "tab_id"@.len());
    assert("data"@.len() != "_target_user_id"@.len());
    assert("tab_id"@.len() != "_target_user_id"@.len());
    assert(p.push((tab, data)).drop_last() =~= p);
    let m = output_message(sid, tab, data, None);
    assert(flushed(p, sid).push(m).drop_last() =~= flushed(p, sid));
}

// ---- uploads ----
/// Who may upload: a client at most twenty times a minute, with a token that allows writing and a
/// path. Each refusal has its status. What may come goes to the session that the token opens and to
/// the path that was asked for, up to the relay's limit.
pub proof fn upload_is_admitted(
    v: RelayView,
    who: Seq<char>,
    token: Option<Seq<char>>,
    path: Option<Seq<char>>,
    now: u128,
    id: Seq<char>,
    sid: Seq<char>,
)
    ensures
        ({
            let (w, g) = upload_gate(v, who, token, path, now, id);
            let in_time = counted(v, who, 20, now).1;
            &&& w.registry == v.registry && w.channels == v.channels
            &&& !in_time ==> g == UploadGateView::Refused(429)
            &&& in_time && token is None ==> g == UploadGateView::Refused(401)
            &&& in_time && token is Some && path is None ==> g == UploadGateView::Refused(400)
            &&& in_time && token is Some && path is Some ==> {
                &&& v.registry.authenticate(token->0) is None ==> g == UploadGateView::Refused(401)
                &&& v.registry.authenticate(token->0) == Some((sid, Permission::ReadOnly)) ==> g
                    == UploadGateView::Refused(403)
                &&& v.registry.authenticate(token->0) == Some((sid, Permission::ReadWrite)) ==> (
                g matches UploadGateView::Open(u) && {
                    &&& u.session_id == sid
                    &&& u.path == path->0
                    &&& u.upload_id == id
                    &&& u.limit == v.max_upload_size
                    &&& u.received == 0
                    &&& u.phase is Receiving
                })
            }
        }),
{
}

/// A file is cut into chunks of 262144 bytes, the last of which may be shorter, and each chunk is
/// the bytes at its place.
pub proof fn chunks_are_cut(data: Seq<u8>, i: nat)
    requires
        i * 262144 < data.len(),
    ensures
        i < chunk_count(data.len()),
        (i + 1) * 262144 <= data.len() ==> chunk(data, i) == data.subrange(
            i * 262144int,
            (i + 1) * 262144int,
        ),
        (i + 1) * 262144 > data.len() ==> chunk(data, i) == data.skip(i * 262144int)
            && chunk_count(data.len()) == i + 1,
{
    let n = data.len();
    assert((i + 1) * 262144 == i * 262144 + 262144);
    assert(i < (n + 262143) / 262144) by (nonlinear_arith)
        requires
            i * 262144 < n,
    ;
    if (i + 1) * 262144 > n {
        assert((n + 262143) / 262144 == i + 1) by (nonlinear_arith)
            requires
                i * 262144 < n,
                (i + 1) * 262144 > n,
        ;
        assert(data.subrange(i * 262144int, n as int) =~= data.skip(i * 262144int));
    }
}

/// The message that carries a chunk names the upload, the path, the chunk and how many there are,
/// and holds the chunk.
pub proof fn chunk_message_says(
    sid: Seq<char>,
    id: Seq<char>,
    path: Seq<char>,
    content: Seq<char>,
    i: nat,
    n: nat,
)
    ensures
        ({
            let d = chunk_doc(sid, id, path, content, i, n);
            let p = d.at("payload"@);
            &&& d.str_field("type"@) == Some("fs:upload"@)
            &&& d.str_field("session_id"@) == Some(sid)
            &&& p.str_field("upload_id"@) == Some(id)
            &&& p.str_field("final_path"@) == Some(path)
            &&& p.str_field("content"@) == Some(content)
            &&& p.get("chunk_index"@) == Some(JsonView::Int(i as int))
            &&& p.get("total_chunks"@) == Some(JsonView::Int(n as int))
        }),
{
    reveal_strlit("type");
    reveal_strlit("session_id");
    reveal_strlit("payload");
    assert("type"@.len() != "session_id"@.len());
    assert("type"@.len() != "payload"@.len());
    assert("session_id"@.len() != "payload"@.len());
    reveal_strlit("upload_id");
    reveal_strlit("final_path");
    reveal_strlit("content");
    reveal_strlit("chunk_index");
    reveal_strlit("total_chunks");
    assert("upload_id"@.len() != "final_path"@.len());
    assert("upload_id"@.len() != "content"@.len());
    assert("upload_id"@.len() != "chunk_index"@.len());
    assert("upload_id"@.len() != "total_chunks"@.len());
    assert("final_path"@.len() != "content"@.len());
    assert("final_path"@.len() != "chunk_index"@.len());
    assert("final_path"@.len() != "total_chunks"@.len());
    assert("content"@.len() != "chunk_index"@.len());
    assert("content"@.len() != "total_chunks"@.len());
    assert("chunk_index"@.len() != "total_chunks"@.len());
}

/// The file that keeps an upload meanwhile is named after a fresh id and the path, with no slash in
/// the part that is the path's.
pub proof fn upload_is_kept_under_a_flat_name(id: Seq<char>, path: Seq<char>, i: int)
    ensures
        temp_name(id, path).len() == id.len() + 1 + path.len(),
        temp_name(id, path).take(id.len() as int) == id,
        temp_name(id, path)[id.len() as int] == '_',
        0 <= i < path.len() ==> temp_name(id, path)[id.len() + 1 + i] == if path[i] == '/' {
            '_'
        } else {
            path[i]
        },
{
    reveal_strlit("_");
    assert(temp_name(id, path).take(id.len() as int) =~= id);
}

} // verus!
