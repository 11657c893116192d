//! The documents that carry messages and their payloads, field by field.
use vstd::prelude::*;

use crate::json::JsonView;
use crate::payload::{
    read_all, ErrorView, ExecCloseView, ExecInputView, ExecListView, ExecResultView,
    ExecSessionInfoView, ExecStartView, FileEntryView, FsResultView, McpExecView, McpResultView,
    TerminalInputView, TerminalOutputView, TerminalResizeView, UserInfoView,
};
use crate::proto::{MessageView, Permission};

verus! {

/// Whether a document has a text under a name.
pub open spec fn has_text(j: JsonView, name: Seq<char>, s: Seq<char>) -> bool {
    j matches JsonView::Obj(m) && m.contains_key(name) && m[name] == JsonView::Str(s)
}

/// Whether a document has a number under a name.
pub open spec fn has_number(j: JsonView, name: Seq<char>, n: int) -> bool {
    j matches JsonView::Obj(m) && m.contains_key(name) && m[name] == JsonView::Int(n)
}

/// Whether a document has nothing under a name, or null.
pub open spec fn lacks(j: JsonView, name: Seq<char>) -> bool {
    j matches JsonView::Obj(m) && (m.contains_key(name) ==> m[name] == JsonView::Null)
}

/// Whether a document has a text under a name where there is one, and else nothing.
pub open spec fn may_have_text(j: JsonView, name: Seq<char>, o: Option<Seq<char>>) -> bool {
    match o {
        Some(s) => has_text(j, name, s),
        None => lacks(j, name),
    }
}

/// Whether a document holds nothing under a name, not even null.
pub open spec fn leaves_out(j: JsonView, name: Seq<char>) -> bool {
    j matches JsonView::Obj(m) && !m.contains_key(name)
}

/// A message is an object of its type, its session and its payload, and any such object is the
/// message, whatever else it holds.
pub proof fn message_on_the_wire(m: MessageView, j: JsonView)
    ensures
        has_text(m.json(), "type"@, m.msg_type),
        has_text(m.json(), "session_id"@, m.session_id),
        m.json().get("payload"@) == Some(m.payload),
        has_text(j, "type"@, m.msg_type) && has_text(j, "session_id"@, m.session_id) && j.get(
            "payload"@,
        ) == Some(m.payload) ==> MessageView::of(j) == Some(m),
        !(j is Obj) && !(j is Arr) ==> MessageView::of(j) is None,
        j is Obj && (leaves_out(j, "type"@) || leaves_out(j, "session_id"@) || leaves_out(
            j,
            "payload"@,
        )) ==> MessageView::of(j) is None,
{
    reveal_strlit("type");
    reveal_strlit("session_id");
    reveal_strlit("payload");
    assert("type"@.len() != "session_id"@.len());
    assert("type"@.len() != "payload"@.len());
    assert("session_id"@.len() != "payload"@.len());
}

/// Terminal output is an object of its fields; what is not there is left out. Any object with these
/// fields is read as it, whatever else it holds.
pub proof fn terminal_output_on_the_wire(v: TerminalOutputView, j: JsonView)
    requires
        j is Obj,
        has_text(j, "data"@, v.data),
        may_have_text(j, "tab_id"@, v.tab_id),
    ensures
        TerminalOutputView::of(j) == Some(v),
        v.json() is Obj,
        has_text(v.json(), "data"@, v.data),
        may_have_text(v.json(), "tab_id"@, v.tab_id),
        v.tab_id is None ==> leaves_out(v.json(), "tab_id"@),
{
    reveal_strlit("data");
    reveal_strlit("tab_id");
    assert("data"@.len() != "tab_id"@.len());
}

/// Terminal input is an object of its fields; what is not there is left out. Any object with these
/// fields is read as it, whatever else it holds.
pub proof fn terminal_input_on_the_wire(v: TerminalInputView, j: JsonView)
    requires
        j is Obj,
        has_text(j, "data"@, v.data),
        may_have_text(j, "tab_id"@, v.tab_id),
    ensures
        TerminalInputView::of(j) == Some(v),
        v.json() is Obj,
        has_text(v.json(), "data"@, v.data),
        may_have_text(v.json(), "tab_id"@, v.tab_id),
        v.tab_id is None ==> leaves_out(v.json(), "tab_id"@),
{
    reveal_strlit("data");
    reveal_strlit("tab_id");
    assert("data"@.len() != "tab_id"@.len());
}

/// The size of a terminal is an object of its fields; what is not there is left out. Any object
/// with these fields is read as it, whatever else it holds.
pub proof fn terminal_resize_on_the_wire(v: TerminalResizeView, j: JsonView)
    requires
        j is Obj,
        has_number(j, "cols"@, v.cols as int),
        has_number(j, "rows"@, v.rows as int),
        may_have_text(j, "tab_id"@, v.tab_id),
    ensures
        TerminalResizeView::of(j) == Some(v),
        v.json() is Obj,
        has_number(v.json(), "cols"@, v.cols as int),
        has_number(v.json(), "rows"@, v.rows as int),
        may_have_text(v.json(), "tab_id"@, v.tab_id),
        v.tab_id is None ==> leaves_out(v.json(), "tab_id"@),
{
    reveal_strlit("cols");
    reveal_strlit("rows");
    reveal_strlit("tab_id");
    assert("cols"@[0] != "rows"@[0]);
    assert("cols"@.len() != "tab_id"@.len());
    assert("rows"@.len() != "tab_id"@.len());
}

/// An entry of a directory is an object of its fields; what is not there is left out. Any object
/// with these fields is read as it, whatever else it holds.
pub proof fn file_entry_on_the_wire(v: FileEntryView, j: JsonView)
    requires
        j is Obj,
        has_text(j, "name"@, v.name),
        has_text(j, "path"@, v.path),
        has_text(j, "type"@, v.entry_type),
        has_number(j, "size"@, v.size as int),
        has_text(j, "mode"@, v.mode),
        has_text(j, "owner"@, v.owner),
    ensures
        FileEntryView::of(j) == Some(v),
        v.json() is Obj,
        has_text(v.json(), "name"@, v.name),
        has_text(v.json(), "path"@, v.path),
        has_text(v.json(), "type"@, v.entry_type),
        has_number(v.json(), "size"@, v.size as int),
        has_text(v.json(), "mode"@, v.mode),
        has_text(v.json(), "owner"@, v.owner),
{
    reveal_strlit("name");
    reveal_strlit("path");
    reveal_strlit("type");
    reveal_strlit("size");
    reveal_strlit("mode");
    reveal_strlit("owner");
    assert("name"@[0] != "path"@[0]);
    assert("name"@[0] != "type"@[0]);
    assert("name"@[0] != "size"@[0]);
    assert("name"@[0] != "mode"@[0]);
    assert("name"@.len() != "owner"@.len());
    assert("path"@[0] != "type"@[0]);
    assert("path"@[0] != "size"@[0]);
    assert("path"@[0] != "mode"@[0]);
    assert("path"@.len() != "owner"@.len());
    assert("type"@[0] != "size"@[0]);
    assert("type"@[0] != "mode"@[0]);
    assert("type"@.len() != "owner"@.len());
    assert("size"@[0] != "mode"@[0]);
    assert("size"@.len() != "owner"@.len());
    assert("mode"@.len() != "owner"@.len());
}

/// The result of a file operation is an object of its fields; what is not there is left out. Any
/// object with these fields is read as it, whatever else it holds.
pub proof fn fs_result_on_the_wire(v: FsResultView, j: JsonView)
    requires
        j is Obj,
        j.get("success"@) == Some(JsonView::Bool(v.success)),
        may_have_text(j, "error"@, v.error),
        match v.entries {
            Some(es) => j.get("entries"@) matches Some(JsonView::Arr(items)) && items.len() == es.len()
                && forall|i: int|
                0 <= i < es.len() ==> FileEntryView::of(#[trigger] items[i]) == Some(es[i]),
            None => lacks(j, "entries"@),
        },
        may_have_text(j, "content"@, v.content),
        may_have_text(j, "path"@, v.path),
        may_have_text(j, "new_path"@, v.new_path),
    ensures
        FsResultView::of(j) == Some(v),
        v.json() is Obj,
        v.json().get("success"@) == Some(JsonView::Bool(v.success)),
        may_have_text(v.json(), "error"@, v.error),
        v.error is None ==> leaves_out(v.json(), "error"@),
        match v.entries {
            Some(es) => v.json().get("entries"@) matches Some(JsonView::Arr(items)) && items.len()
                == es.len() && forall|i: int|
                0 <= i < es.len() ==> #[trigger] items[i] == es[i].json(),
            None => leaves_out(v.json(), "entries"@),
        },
        may_have_text(v.json(), "content"@, v.content),
        v.content is None ==> leaves_out(v.json(), "content"@),
        may_have_text(v.json(), "path"@, v.path),
        v.path is None ==> leaves_out(v.json(), "path"@),
        may_have_text(v.json(), "new_path"@, v.new_path),
        v.new_path is None ==> leaves_out(v.json(), "new_path"@),
{
    reveal_strlit("success");
    reveal_strlit("error");
    reveal_strlit("entries");
    reveal_strlit("content");
    reveal_strlit("path");
    reveal_strlit("new_path");
    assert("success"@.len() != "error"@.len());
    assert("success"@[0] != "entries"@[0]);
    assert("success"@[0] != "content"@[0]);
    assert("success"@.len() != "path"@.len());
    assert("success"@.len() != "new_path"@.len());
    assert("error"@.len() != "entries"@.len());
    assert("error"@.len() != "content"@.len());
    assert("error"@.len() != "path"@.len());
    assert("error"@.len() != "new_path"@.len());
    assert("entries"@[0] != "content"@[0]);
    assert("entries"@.len() != "path"@.len());
    assert("entries"@.len() != "new_path"@.len());
    assert("content"@.len() != "path"@.len());
    assert("content"@.len() != "new_path"@.len());
    assert("path"@.len() != "new_path"@.len());
    if let Some(es) = v.entries {
        if let Some(JsonView::Arr(items)) = j.get("entries"@) {
            lemma_entries(items, es);
        }
    }
}

/// A command is an object of its fields; what is not there is left out. Any object with these
/// fields is read as it, whatever else it holds.
pub proof fn mcp_exec_on_the_wire(v: McpExecView, j: JsonView)
    requires
        j is Obj,
        has_text(j, "cmd"@, v.cmd),
        match v.timeout_ms {
            Some(n) => has_number(j, "timeout_ms"@, n as int),
            None => lacks(j, "timeout_ms"@),
        },
    ensures
        McpExecView::of(j) == Some(v),
        v.json() is Obj,
        has_text(v.json(), "cmd"@, v.cmd),
        match v.timeout_ms {
            Some(n) => has_number(v.json(), "timeout_ms"@, n as int),
            None => lacks(v.json(), "timeout_ms"@),
        },
        v.timeout_ms is None ==> leaves_out(v.json(), "timeout_ms"@),
{
    reveal_strlit("cmd");
    reveal_strlit("timeout_ms");
    assert("cmd"@.len() != "timeout_ms"@.len());
}

/// The result of a command is an object of its fields; what is not there is left out. Any object
/// with these fields is read as it, whatever else it holds.
pub proof fn mcp_result_on_the_wire(v: McpResultView, j: JsonView)
    requires
        j is Obj,
        has_text(j, "stdout"@, v.stdout),
        has_text(j, "stderr"@, v.stderr),
        has_number(j, "exit_code"@, v.exit_code as int),
    ensures
        McpResultView::of(j) == Some(v),
        v.json() is Obj,
        has_text(v.json(), "stdout"@, v.stdout),
        has_text(v.json(), "stderr"@, v.stderr),
        has_number(v.json(), "exit_code"@, v.exit_code as int),
{
    reveal_strlit("stdout");
    reveal_strlit("stderr");
    reveal_strlit("exit_code");
    assert("stdout"@[3] != "stderr"@[3]);
    assert("stdout"@.len() != "exit_code"@.len());
    assert("stderr"@.len() != "exit_code"@.len());
}

/// A background command is an object of its fields; what is not there is left out. Any object with
/// these fields is read as it, whatever else it holds.
pub proof fn exec_start_on_the_wire(v: ExecStartView, j: JsonView)
    requires
        j is Obj,
        has_text(j, "cmd"@, v.cmd),
        may_have_text(j, "_mcp_request_id"@, v._mcp_request_id),
    ensures
        ExecStartView::of(j) == Some(v),
        v.json() is Obj,
        has_text(v.json(), "cmd"@, v.cmd),
        may_have_text(v.json(), "_mcp_request_id"@, v._mcp_request_id),
        v._mcp_request_id is None ==> leaves_out(v.json(), "_mcp_request_id"@),
{
    reveal_strlit("cmd");
    reveal_strlit("_mcp_request_id");
    assert("cmd"@.len() != "_mcp_request_id"@.len());
}

/// Input for a background command is an object of its fields; what is not there is left out. Any
/// object with these fields is read as it, whatever else it holds.
pub proof fn exec_input_on_the_wire(v: ExecInputView, j: JsonView)
    requires
        j is Obj,
        has_text(j, "exec_id"@, v.exec_id),
        has_text(j, "data_b64"@, v.data_b64),
        may_have_text(j, "_mcp_request_id"@, v._mcp_request_id),
    ensures
        ExecInputView::of(j) == Some(v),
        v.json() is Obj,
        has_text(v.json(), "exec_id"@, v.exec_id),
        has_text(v.json(), "data_b64"@, v.data_b64),
        may_have_text(v.json(), "_mcp_request_id"@, v._mcp_request_id),
        v._mcp_request_id is None ==> leaves_out(v.json(), "_mcp_request_id"@),
{
    reveal_strlit("exec_id");
    reveal_strlit("data_b64");
    reveal_strlit("_mcp_request_id");
    assert("exec_id"@.len() != "data_b64"@.len());
    assert("exec_id"@.len() != "_mcp_request_id"@.len());
    assert("data_b64"@.len() != "_mcp_request_id"@.len());
}

/// The end of a background command is an object of its fields; what is not there is left out. Any
/// object with these fields is read as it, whatever else it holds.
pub proof fn exec_close_on_the_wire(v: ExecCloseView, j: JsonView)
    requires
        j is Obj,
        has_text(j, "exec_id"@, v.exec_id),
        may_have_text(j, "_mcp_request_id"@, v._mcp_request_id),
    ensures
        ExecCloseView::of(j) == Some(v),
        v.json() is Obj,
        has_text(v.json(), "exec_id"@, v.exec_id),
        may_have_text(v.json(), "_mcp_request_id"@, v._mcp_request_id),
        v._mcp_request_id is None ==> leaves_out(v.json(), "_mcp_request_id"@),
{
    reveal_strlit("exec_id");
    reveal_strlit("_mcp_request_id");
    assert("exec_id"@.len() != "_mcp_request_id"@.len());
}

/// A request for the background commands is an object of its fields; what is not there is left out.
/// Any object with these fields is read as it, whatever else it holds.
pub proof fn exec_list_on_the_wire(v: ExecListView, j: JsonView)
    requires
        j is Obj,
        may_have_text(j, "_mcp_request_id"@, v._mcp_request_id),
    ensures
        ExecListView::of(j) == Some(v),
        v.json() is Obj,
        may_have_text(v.json(), "_mcp_request_id"@, v._mcp_request_id),
        v._mcp_request_id is None ==> leaves_out(v.json(), "_mcp_request_id"@),
{
    reveal_strlit("_mcp_request_id");
}

/// The state of a background command is an object of its fields; what is not there is left out. Any
/// object with these fields is read as it, whatever else it holds.
pub proof fn exec_result_on_the_wire(v: ExecResultView, j: JsonView)
    requires
        j is Obj,
        has_text(j, "exec_id"@, v.exec_id),
        has_text(j, "stdout"@, v.stdout),
        has_text(j, "stderr"@, v.stderr),
        has_text(j, "status"@, v.status),
        match v.exit_code {
            Some(n) => has_number(j, "exit_code"@, n as int),
            None => lacks(j, "exit_code"@),
        },
        may_have_text(j, "error"@, v.error),
        may_have_text(j, "_mcp_request_id"@, v._mcp_request_id),
    ensures
        ExecResultView::of(j) == Some(v),
        v.json() is Obj,
        has_text(v.json(), "exec_id"@, v.exec_id),
        has_text(v.json(), "stdout"@, v.stdout),
        has_text(v.json(), "stderr"@, v.stderr),
        has_text(v.json(), "status"@, v.status),
        match v.exit_code {
            Some(n) => has_number(v.json(), "exit_code"@, n as int),
            None => lacks(v.json(), "exit_code"@),
        },
        v.exit_code is None ==> leaves_out(v.json(), "exit_code"@),
        may_have_text(v.json(), "error"@, v.error),
        v.error is None ==> leaves_out(v.json(), "error"@),
        may_have_text(v.json(), "_mcp_request_id"@, v._mcp_request_id),
        v._mcp_request_id is None ==> leaves_out(v.json(), "_mcp_request_id"@),
{
    reveal_strlit("exec_id");
    reveal_strlit("stdout");
    reveal_strlit("stderr");
    reveal_strlit("status");
    reveal_strlit("exit_code");
    reveal_strlit("error");
    reveal_strlit("_mcp_request_id");
    assert("exec_id"@.len() != "stdout"@.len());
    assert("exec_id"@.len() != "stderr"@.len());
    assert("exec_id"@.len() != "status"@.len());
    assert("exec_id"@.len() != "exit_code"@.len());
    assert("exec_id"@.len() != "error"@.len());
    assert("exec_id"@.len() != "_mcp_request_id"@.len());
    assert("stdout"@[3] != "stderr"@[3]);
    assert("stdout"@[2] != "status"@[2]);
    assert("stdout"@.len() != "exit_code"@.len());
    assert("stdout"@.len() != "error"@.len());
    assert("stdout"@.len() != "_mcp_request_id"@.len());
    assert("stderr"@[2] != "status"@[2]);
    assert("stderr"@.len() != "exit_code"@.len());
    assert("stderr"@.len() != "error"@.len());
    assert("stderr"@.len() != "_mcp_request_id"@.len());
    assert("status"@.len() != "exit_code"@.len());
    assert("status"@.len() != "error"@.len());
    assert("status"@.len() != "_mcp_request_id"@.len());
    assert("exit_code"@.len() != "error"@.len());
    assert("exit_code"@.len() != "_mcp_request_id"@.len());
    assert("error"@.len() != "_mcp_request_id"@.len());
}

/// An entry of the list of background commands is an object of its fields; what is not there is
/// left out. Any object with these fields is read as it, whatever else it holds.
pub proof fn exec_session_info_on_the_wire(v: ExecSessionInfoView, j: JsonView)
    requires
        j is Obj,
        has_text(j, "exec_id"@, v.exec_id),
        has_text(j, "cmd"@, v.cmd),
        has_text(j, "status"@, v.status),
        has_number(j, "started_at"@, v.started_at as int),
    ensures
        ExecSessionInfoView::of(j) == Some(v),
        v.json() is Obj,
        has_text(v.json(), "exec_id"@, v.exec_id),
        has_text(v.json(), "cmd"@, v.cmd),
        has_text(v.json(), "status"@, v.status),
        has_number(v.json(), "started_at"@, v.started_at as int),
{
    reveal_strlit("exec_id");
    reveal_strlit("cmd");
    reveal_strlit("status");
    reveal_strlit("started_at");
    assert("exec_id"@.len() != "cmd"@.len());
    assert("exec_id"@.len() != "status"@.len());
    assert("exec_id"@.len() != "started_at"@.len());
    assert("cmd"@.len() != "status"@.len());
    assert("cmd"@.len() != "started_at"@.len());
    assert("status"@.len() != "started_at"@.len());
}

/// A user is an object of its fields; what is not there is left out. Any object with these fields
/// is read as it, whatever else it holds.
pub proof fn user_info_on_the_wire(v: UserInfoView, j: JsonView)
    requires
        j is Obj,
        has_text(j, "user_id"@, v.user_id),
        has_text(
            j,
            "permission"@,
            match v.permission {
                Permission::ReadWrite => "readwrite"@,
                Permission::ReadOnly => "readonly"@,
            },
        ),
    ensures
        UserInfoView::of(j) == Some(v),
        v.json() is Obj,
        has_text(v.json(), "user_id"@, v.user_id),
        has_text(
            v.json(),
            "permission"@,
            match v.permission {
                Permission::ReadWrite => "readwrite"@,
                Permission::ReadOnly => "readonly"@,
            },
        ),
{
    reveal_strlit("user_id");
    reveal_strlit("permission");
    assert("user_id"@.len() != "permission"@.len());
    reveal_strlit("readwrite");
    reveal_strlit("readonly");
    assert("readwrite"@.len() != "readonly"@.len());
}

/// An error is an object of its fields; what is not there is left out. Any object with these fields
/// is read as it, whatever else it holds.
pub proof fn error_on_the_wire(v: ErrorView, j: JsonView)
    requires
        j is Obj,
        has_text(j, "code"@, v.code),
        has_text(j, "message"@, v.message),
    ensures
        ErrorView::of(j) == Some(v),
        v.json() is Obj,
        has_text(v.json(), "code"@, v.code),
        has_text(v.json(), "message"@, v.message),
{
    reveal_strlit("code");
    reveal_strlit("message");
    assert("code"@.len() != "message"@.len());
}

/// A permission is also read from an object that holds null under its name and nothing else.
pub proof fn permission_reads_as_object(user: Seq<char>, p: Permission)
    ensures
        ({
            let name = match p {
                Permission::ReadWrite => "readwrite"@,
                Permission::ReadOnly => "readonly"@,
            };
            let null = JsonView::Obj(
                Map::<Seq<char>, JsonView>::empty().insert(name, JsonView::Null),
            );
            let j = JsonView::object().with_str("user_id"@, user).with("permission"@, null);
            UserInfoView::of(j) == Some(UserInfoView { user_id: user, permission: p })
        }),
{
    reveal_strlit("user_id");
    reveal_strlit("permission");
    assert("user_id"@.len() != "permission"@.len());
    reveal_strlit("readwrite");
    reveal_strlit("readonly");
    assert("readwrite"@.len() != "readonly"@.len());
    let a = Map::<Seq<char>, JsonView>::empty().insert("readwrite"@, JsonView::Null);
    let b = Map::<Seq<char>, JsonView>::empty().insert("readonly"@, JsonView::Null);
    assert(a.contains_key("readwrite"@) && !b.contains_key("readwrite"@));
}

proof fn lemma_entries(items: Seq<JsonView>, es: Seq<FileEntryView>)
    requires
        items.len() == es.len(),
        forall|i: int|
            0 <= i < es.len() ==> FileEntryView::of(#[trigger] items[i]) == Some(es[i]),
    ensures
        read_all(items) == Some(es),
    decreases items.len(),
{
    if items.len() == 0 {
        assert(es =~= Seq::<FileEntryView>::empty());
    } else {
        let a = items.drop_last();
        let b = es.drop_last();
        assert forall|i: int| 0 <= i < b.len() implies FileEntryView::of(#[trigger] a[i]) == Some(
            b[i],
        ) by {
            assert(FileEntryView::of(items[i]) == Some(es[i]));
        }
        lemma_entries(a, b);
        assert(FileEntryView::of(items[items.len() - 1]) == Some(es[es.len() - 1]));
        assert(b.push(es.last()) =~= es);
    }
}

} // verus!
