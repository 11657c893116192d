//! What messages of each type carry.
use vstd::prelude::*;

use crate::json::{items_view, lemma_items_view, names_view, Json, JsonView};
use crate::proto::Permission;
use crate::text::{opt_text, str_eq};

verus! {

/// Terminal output of a tab, in base64.
#[derive(Debug, PartialEq)]
pub struct TerminalOutputPayload {
    pub data: String,
    pub tab_id: Option<String>,
}

pub struct TerminalOutputView {
    pub data: Seq<char>,
    pub tab_id: Option<Seq<char>>,
}

impl View for TerminalOutputPayload {
    type V = TerminalOutputView;

    open spec fn view(&self) -> TerminalOutputView {
        TerminalOutputView {
            data: self.data@,
            tab_id: opt_text(self.tab_id),
        }
    }
}

impl TerminalOutputView {
    /// The document that carries it.
    pub open spec fn json(self) -> JsonView {
        JsonView::object()
            .with_str("data"@, self.data)
            .with_opt_str("tab_id"@, self.tab_id)
    }

    /// The names of its fields, in order.
    pub open spec fn names() -> Seq<Seq<char>> {
        seq!["data"@, "tab_id"@]
    }

    /// What a document carries.
    pub open spec fn of(j: JsonView) -> Option<TerminalOutputView> {
        match j.record(Self::names()) {
            Some(o) => Self::of_object(o),
            None => None,
        }
    }

    /// What an object carries.
    pub open spec fn of_object(j: JsonView) -> Option<TerminalOutputView> {
        match (j.str_field("data"@), j.opt_str_field("tab_id"@)) {
            (Some(data), Some(tab_id)) => Some(TerminalOutputView { data, tab_id }),
            _ => None,
        }
    }
}

impl TerminalOutputPayload {
    /// The document that carries it.
    pub fn to_json(&self) -> (r: Json)
        ensures
            r@ == self@.json(),
    {
        Json::object()
            .with_str("data", self.data.as_str())
            .with_opt_str("tab_id", &self.tab_id)
    }

    /// Reads what a document carries.
    pub fn from_json(j: &Json) -> (r: Option<TerminalOutputPayload>)
        ensures
            match r {
                Some(p) => TerminalOutputView::of(j@) == Some(p@),
                None => TerminalOutputView::of(j@) is None,
            },
    {
        let names = ["data", "tab_id"];
        assert(names_view(names@) =~= TerminalOutputView::names());
        match j.listed(&names) {
            Some(o) => Self::from_object(&o),
            None => if j.is_object() {
                Self::from_object(j)
            } else {
                None
            },
        }
    }

    fn from_object(j: &Json) -> (r: Option<TerminalOutputPayload>)
        ensures
            match r {
                Some(p) => TerminalOutputView::of_object(j@) == Some(p@),
                None => TerminalOutputView::of_object(j@) is None,
            },
    {
        let data = match j.str_field("data") {
            Some(x) => x.to_owned(),
            None => {
                return None;
            },
        };
        let tab_id = match j.opt_str_field("tab_id") {
            Some(x) => x,
            None => {
                return None;
            },
        };
        Some(TerminalOutputPayload { data, tab_id })
    }
}

/// One entry of a directory.
#[derive(Debug, PartialEq)]
pub struct FileEntry {
    pub name: String,
    pub path: String,
    pub entry_type: String,
    pub size: u64,
    pub mode: String,
    pub owner: String,
}

pub struct FileEntryView {
    pub name: Seq<char>,
    pub path: Seq<char>,
    pub entry_type: Seq<char>,
    pub size: u64,
    pub mode: Seq<char>,
    pub owner: Seq<char>,
}

impl View for FileEntry {
    type V = FileEntryView;

    open spec fn view(&self) -> FileEntryView {
        FileEntryView {
            name: self.name@,
            path: self.path@,
            entry_type: self.entry_type@,
            size: self.size,
            mode: self.mode@,
            owner: self.owner@,
        }
    }
}

impl FileEntryView {
    /// The document that carries it.
    pub open spec fn json(self) -> JsonView {
        JsonView::object()
            .with_str("name"@, self.name)
            .with_str("path"@, self.path)
            .with_str("type"@, self.entry_type)
            .with("size"@, JsonView::Int(self.size as int))
            .with_str("mode"@, self.mode)
            .with_str("owner"@, self.owner)
    }

    /// The names of its fields, in order.
    pub open spec fn names() -> Seq<Seq<char>> {
        seq!["name"@, "path"@, "type"@, "size"@, "mode"@, "owner"@]
    }

    /// What a document carries.
    pub open spec fn of(j: JsonView) -> Option<FileEntryView> {
        match j.record(Self::names()) {
            Some(o) => Self::of_object(o),
            None => None,
        }
    }

    /// What an object carries.
    pub open spec fn of_object(j: JsonView) -> Option<FileEntryView> {
        match (
            j.str_field("name"@),
            j.str_field("path"@),
            j.str_field("type"@),
            j.u64_field("size"@),
            j.str_field("mode"@),
            j.str_field("owner"@),
        ) {
            (Some(name), Some(path), Some(entry_type), Some(size), Some(mode), Some(owner)) => Some(
                FileEntryView { name, path, entry_type, size, mode, owner },
            ),
            _ => None,
        }
    }
}

impl FileEntry {
    /// The document that carries it.
    pub fn to_json(&self) -> (r: Json)
        ensures
            r@ == self@.json(),
    {
        Json::object()
            .with_str("name", self.name.as_str())
            .with_str("path", self.path.as_str())
            .with_str("type", self.entry_type.as_str())
            .with("size", Json::Int(self.size as i128))
            .with_str("mode", self.mode.as_str())
            .with_str("owner", self.owner.as_str())
    }

    /// Reads what a document carries.
    pub fn from_json(j: &Json) -> (r: Option<FileEntry>)
        ensures
            match r {
                Some(p) => FileEntryView::of(j@) == Some(p@),
                None => FileEntryView::of(j@) is None,
            },
    {
        let names = ["name", "path", "type", "size", "mode", "owner"];
        assert(names_view(names@) =~= FileEntryView::names());
        match j.listed(&names) {
            Some(o) => Self::from_object(&o),
            None => if j.is_object() {
                Self::from_object(j)
            } else {
                None
            },
        }
    }

    fn from_object(j: &Json) -> (r: Option<FileEntry>)
        ensures
            match r {
                Some(p) => FileEntryView::of_object(j@) == Some(p@),
                None => FileEntryView::of_object(j@) is None,
            },
    {
        let name = match j.str_field("name") {
            Some(x) => x.to_owned(),
            None => {
                return None;
            },
        };
        let path = match j.str_field("path") {
            Some(x) => x.to_owned(),
            None => {
                return None;
            },
        };
        let entry_type = match j.str_field("type") {
            Some(x) => x.to_owned(),
            None => {
                return None;
            },
        };
        let size = match j.u64_field("size") {
            Some(x) => x,
            None => {
                return None;
            },
        };
        let mode = match j.str_field("mode") {
            Some(x) => x.to_owned(),
            None => {
                return None;
            },
        };
        let owner = match j.str_field("owner") {
            Some(x) => x.to_owned(),
            None => {
                return None;
            },
        };
        Some(FileEntry { name, path, entry_type, size, mode, owner })
    }
}

/// What came of a file operation.
#[derive(Debug, PartialEq)]
pub struct FsResultPayload {
    pub success: bool,
    pub error: Option<String>,
    pub entries: Option<Vec<FileEntry>>,
    pub content: Option<String>,
    pub path: Option<String>,
    pub new_path: Option<String>,
}

pub struct FsResultView {
    pub success: bool,
    pub error: Option<Seq<char>>,
    pub entries: Option<Seq<FileEntryView>>,
    pub content: Option<Seq<char>>,
    pub path: Option<Seq<char>>,
    pub new_path: Option<Seq<char>>,
}

impl View for FsResultPayload {
    type V = FsResultView;

    open spec fn view(&self) -> FsResultView {
        FsResultView {
            success: self.success,
            error: opt_text(self.error),
            entries: opt_entries(self.entries),
            content: opt_text(self.content),
            path: opt_text(self.path),
            new_path: opt_text(self.new_path),
        }
    }
}

impl FsResultView {
    /// The document that carries it.
    pub open spec fn json(self) -> JsonView {
        JsonView::object()
            .with("success"@, JsonView::Bool(self.success))
            .with_opt_str("error"@, self.error)
            .with_opt("entries"@, entries_doc(self.entries))
            .with_opt_str("content"@, self.content)
            .with_opt_str("path"@, self.path)
            .with_opt_str("new_path"@, self.new_path)
    }

    /// The names of its fields, in order.
    pub open spec fn names() -> Seq<Seq<char>> {
        seq!["success"@, "error"@, "entries"@, "content"@, "path"@, "new_path"@]
    }

    /// What a document carries.
    pub open spec fn of(j: JsonView) -> Option<FsResultView> {
        match j.record(Self::names()) {
            Some(o) => Self::of_object(o),
            None => None,
        }
    }

    /// What an object carries.
    pub open spec fn of_object(j: JsonView) -> Option<FsResultView> {
        match (
            j.bool_field("success"@),
            j.opt_str_field("error"@),
            read_entries(j.get("entries"@)),
            j.opt_str_field("content"@),
            j.opt_str_field("path"@),
            j.opt_str_field("new_path"@),
        ) {
            (
                Some(success),
                Some(error),
                Some(entries),
                Some(content),
                Some(path),
                Some(new_path),
            ) => Some(
                FsResultView { success, error, entries, content, path, new_path },
            ),
            _ => None,
        }
    }
}

impl FsResultPayload {
    /// The document that carries it.
    pub fn to_json(&self) -> (r: Json)
        ensures
            r@ == self@.json(),
    {
        Json::object()
            .with("success", Json::Bool(self.success))
            .with_opt_str("error", &self.error)
            .with_opt("entries", entries_json(&self.entries))
            .with_opt_str("content", &self.content)
            .with_opt_str("path", &self.path)
            .with_opt_str("new_path", &self.new_path)
    }

    /// Reads what a document carries.
    pub fn from_json(j: &Json) -> (r: Option<FsResultPayload>)
        ensures
            match r {
                Some(p) => FsResultView::of(j@) == Some(p@),
                None => FsResultView::of(j@) is None,
            },
    {
        let names = ["success", "error", "entries", "content", "path", "new_path"];
        assert(names_view(names@) =~= FsResultView::names());
        match j.listed(&names) {
            Some(o) => Self::from_object(&o),
            None => if j.is_object() {
                Self::from_object(j)
            } else {
                None
            },
        }
    }

    fn from_object(j: &Json) -> (r: Option<FsResultPayload>)
        ensures
            match r {
                Some(p) => FsResultView::of_object(j@) == Some(p@),
                None => FsResultView::of_object(j@) is None,
            },
    {
        let success = match j.bool_field("success") {
            Some(x) => x,
            None => {
                return None;
            },
        };
        let error = match j.opt_str_field("error") {
            Some(x) => x,
            None => {
                return None;
            },
        };
        let entries = match entries_of(j.get("entries")) {
            Some(x) => x,
            None => {
                return None;
            },
        };
        let content = match j.opt_str_field("content") {
            Some(x) => x,
            None => {
                return None;
            },
        };
        let path = match j.opt_str_field("path") {
            Some(x) => x,
            None => {
                return None;
            },
        };
        let new_path = match j.opt_str_field("new_path") {
            Some(x) => x,
            None => {
                return None;
            },
        };
        Some(FsResultPayload { success, error, entries, content, path, new_path })
    }
}

/// A command to run.
#[derive(Debug, PartialEq)]
pub struct McpExecPayload {
    pub cmd: String,
    pub timeout_ms: Option<u64>,
}

pub struct McpExecView {
    pub cmd: Seq<char>,
    pub timeout_ms: Option<u64>,
}

impl View for McpExecPayload {
    type V = McpExecView;

    open spec fn view(&self) -> McpExecView {
        McpExecView {
            cmd: self.cmd@,
            timeout_ms: self.timeout_ms,
        }
    }
}

impl McpExecView {
    /// The document that carries it.
    pub open spec fn json(self) -> JsonView {
        JsonView::object()
            .with_str("cmd"@, self.cmd)
            .with_opt_int("timeout_ms"@, opt_u64(self.timeout_ms))
    }

    /// The names of its fields, in order.
    pub open spec fn names() -> Seq<Seq<char>> {
        seq!["cmd"@, "timeout_ms"@]
    }

    /// What a document carries.
    pub open spec fn of(j: JsonView) -> Option<McpExecView> {
        match j.record(Self::names()) {
            Some(o) => Self::of_object(o),
            None => None,
        }
    }

    /// What an object carries.
    pub open spec fn of_object(j: JsonView) -> Option<McpExecView> {
        match (j.str_field("cmd"@), j.opt_u64_field("timeout_ms"@)) {
            (Some(cmd), Some(timeout_ms)) => Some(McpExecView { cmd, timeout_ms }),
            _ => None,
        }
    }
}

impl McpExecPayload {
    /// The document that carries it.
    pub fn to_json(&self) -> (r: Json)
        ensures
            r@ == self@.json(),
    {
        Json::object()
            .with_str("cmd", self.cmd.as_str())
            .with_opt_int("timeout_ms", wide_u64(self.timeout_ms))
    }

    /// Reads what a document carries.
    pub fn from_json(j: &Json) -> (r: Option<McpExecPayload>)
        ensures
            match r {
                Some(p) => McpExecView::of(j@) == Some(p@),
                None => McpExecView::of(j@) is None,
            },
    {
        let names = ["cmd", "timeout_ms"];
        assert(names_view(names@) =~= McpExecView::names());
        match j.listed(&names) {
            Some(o) => Self::from_object(&o),
            None => if j.is_object() {
                Self::from_object(j)
            } else {
                None
            },
        }
    }

    fn from_object(j: &Json) -> (r: Option<McpExecPayload>)
        ensures
            match r {
                Some(p) => McpExecView::of_object(j@) == Some(p@),
                None => McpExecView::of_object(j@) is None,
            },
    {
        let cmd = match j.str_field("cmd") {
            Some(x) => x.to_owned(),
            None => {
                return None;
            },
        };
        let timeout_ms = match j.opt_u64_field("timeout_ms") {
            Some(x) => x,
            None => {
                return None;
            },
        };
        Some(McpExecPayload { cmd, timeout_ms })
    }
}

/// What came of a command.
#[derive(Debug, PartialEq)]
pub struct McpResultPayload {
    pub stdout: String,
    pub stderr: String,
    pub exit_code: i32,
}

pub struct McpResultView {
    pub stdout: Seq<char>,
    pub stderr: Seq<char>,
    pub exit_code: i32,
}

impl View for McpResultPayload {
    type V = McpResultView;

    open spec fn view(&self) -> McpResultView {
        McpResultView {
            stdout: self.stdout@,
            stderr: self.stderr@,
            exit_code: self.exit_code,
        }
    }
}

impl McpResultView {
    /// The document that carries it.
    pub open spec fn json(self) -> JsonView {
        JsonView::object()
            .with_str("stdout"@, self.stdout)
            .with_str("stderr"@, self.stderr)
            .with("exit_code"@, JsonView::Int(self.exit_code as int))
    }

    /// The names of its fields, in order.
    pub open spec fn names() -> Seq<Seq<char>> {
        seq!["stdout"@, "stderr"@, "exit_code"@]
    }

    /// What a document carries.
    pub open spec fn of(j: JsonView) -> Option<McpResultView> {
        match j.record(Self::names()) {
            Some(o) => Self::of_object(o),
            None => None,
        }
    }

    /// What an object carries.
    pub open spec fn of_object(j: JsonView) -> Option<McpResultView> {
        match (j.str_field("stdout"@), j.str_field("stderr"@), j.i32_field("exit_code"@)) {
            (Some(stdout), Some(stderr), Some(exit_code)) => Some(
                McpResultView { stdout, stderr, exit_code },
            ),
            _ => None,
        }
    }
}

impl McpResultPayload {
    /// The document that carries it.
    pub fn to_json(&self) -> (r: Json)
        ensures
            r@ == self@.json(),
    {
        Json::object()
            .with_str("stdout", self.stdout.as_str())
            .with_str("stderr", self.stderr.as_str())
            .with("exit_code", Json::Int(self.exit_code as i128))
    }

    /// Reads what a document carries.
    pub fn from_json(j: &Json) -> (r: Option<McpResultPayload>)
        ensures
            match r {
                Some(p) => McpResultView::of(j@) == Some(p@),
                None => McpResultView::of(j@) is None,
            },
    {
        let names = ["stdout", "stderr", "exit_code"];
        assert(names_view(names@) =~= McpResultView::names());
        match j.listed(&names) {
            Some(o) => Self::from_object(&o),
            None => if j.is_object() {
                Self::from_object(j)
            } else {
                None
            },
        }
    }

    fn from_object(j: &Json) -> (r: Option<McpResultPayload>)
        ensures
            match r {
                Some(p) => McpResultView::of_object(j@) == Some(p@),
                None => McpResultView::of_object(j@) is None,
            },
    {
        let stdout = match j.str_field("stdout") {
            Some(x) => x.to_owned(),
            None => {
                return None;
            },
        };
        let stderr = match j.str_field("stderr") {
            Some(x) => x.to_owned(),
            None => {
                return None;
            },
        };
        let exit_code = match j.i32_field("exit_code") {
            Some(x) => x,
            None => {
                return None;
            },
        };
        Some(McpResultPayload { stdout, stderr, exit_code })
    }
}

/// A command to run in the background.
#[derive(Debug, PartialEq)]
pub struct ExecStartPayload {
    pub cmd: String,
    pub _mcp_request_id: Option<String>,
}

pub struct ExecStartView {
    pub cmd: Seq<char>,
    pub _mcp_request_id: Option<Seq<char>>,
}

impl View for ExecStartPayload {
    type V = ExecStartView;

    open spec fn view(&self) -> ExecStartView {
        ExecStartView {
            cmd: self.cmd@,
            _mcp_request_id: opt_text(self._mcp_request_id),
        }
    }
}

impl ExecStartView {
    /// The document that carries it.
    pub open spec fn json(self) -> JsonView {
        JsonView::object()
            .with_str("cmd"@, self.cmd)
            .with_opt_str("_mcp_request_id"@, self._mcp_request_id)
    }

    /// The names of its fields, in order.
    pub open spec fn names() -> Seq<Seq<char>> {
        seq!["cmd"@, "_mcp_request_id"@]
    }

    /// What a document carries.
    pub open spec fn of(j: JsonView) -> Option<ExecStartView> {
        match j.record(Self::names()) {
            Some(o) => Self::of_object(o),
            None => None,
        }
    }

    /// What an object carries.
    pub open spec fn of_object(j: JsonView) -> Option<ExecStartView> {
        match (j.str_field("cmd"@), j.opt_str_field("_mcp_request_id"@)) {
            (Some(cmd), Some(_mcp_request_id)) => Some(ExecStartView { cmd, _mcp_request_id }),
            _ => None,
        }
    }
}

impl ExecStartPayload {
    /// The document that carries it.
    pub fn to_json(&self) -> (r: Json)
        ensures
            r@ == self@.json(),
    {
        Json::object()
            .with_str("cmd", self.cmd.as_str())
            .with_opt_str("_mcp_request_id", &self._mcp_request_id)
    }

    /// Reads what a document carries.
    pub fn from_json(j: &Json) -> (r: Option<ExecStartPayload>)
        ensures
            match r {
                Some(p) => ExecStartView::of(j@) == Some(p@),
                None => ExecStartView::of(j@) is None,
            },
    {
        let names = ["cmd", "_mcp_request_id"];
        assert(names_view(names@) =~= ExecStartView::names());
        match j.listed(&names) {
            Some(o) => Self::from_object(&o),
            None => if j.is_object() {
                Self::from_object(j)
            } else {
                None
            },
        }
    }

    fn from_object(j: &Json) -> (r: Option<ExecStartPayload>)
        ensures
            match r {
                Some(p) => ExecStartView::of_object(j@) == Some(p@),
                None => ExecStartView::of_object(j@) is None,
            },
    {
        let cmd = match j.str_field("cmd") {
            Some(x) => x.to_owned(),
            None => {
                return None;
            },
        };
        let _mcp_request_id = match j.opt_str_field("_mcp_request_id") {
            Some(x) => x,
            None => {
                return None;
            },
        };
        Some(ExecStartPayload { cmd, _mcp_request_id })
    }
}

/// What came of a request about a background command.
#[derive(Debug, PartialEq)]
pub struct ExecResultPayload {
    pub exec_id: String,
    pub stdout: String,
    pub stderr: String,
    pub status: String,
    pub exit_code: Option<i32>,
    pub error: Option<String>,
    pub _mcp_request_id: Option<String>,
}

pub struct ExecResultView {
    pub exec_id: Seq<char>,
    pub stdout: Seq<char>,
    pub stderr: Seq<char>,
    pub status: Seq<char>,
    pub exit_code: Option<i32>,
    pub error: Option<Seq<char>>,
    pub _mcp_request_id: Option<Seq<char>>,
}

impl View for ExecResultPayload {
    type V = ExecResultView;

    open spec fn view(&self) -> ExecResultView {
        ExecResultView {
            exec_id: self.exec_id@,
            stdout: self.stdout@,
            stderr: self.stderr@,
            status: self.status@,
            exit_code: self.exit_code,
            error: opt_text(self.error),
            _mcp_request_id: opt_text(self._mcp_request_id),
        }
    }
}

impl ExecResultView {
    /// The document that carries it.
    pub open spec fn json(self) -> JsonView {
        JsonView::object()
            .with_str("exec_id"@, self.exec_id)
            .with_str("stdout"@, self.stdout)
            .with_str("stderr"@, self.stderr)
            .with_str("status"@, self.status)
            .with_opt_int("exit_code"@, opt_i32(self.exit_code))
            .with_opt_str("error"@, self.error)
            .with_opt_str("_mcp_request_id"@, self._mcp_request_id)
    }

    /// The names of its fields, in order.
    pub open spec fn names() -> Seq<Seq<char>> {
        seq![
            "exec_id"@,
            "stdout"@,
            "stderr"@,
            "status"@,
            "exit_code"@,
            "error"@,
            "_mcp_request_id"@,
        ]
    }

    /// What a document carries.
    pub open spec fn of(j: JsonView) -> Option<ExecResultView> {
        match j.record(Self::names()) {
            Some(o) => Self::of_object(o),
            None => None,
        }
    }

    /// What an object carries.
    pub open spec fn of_object(j: JsonView) -> Option<ExecResultView> {
        match (
            j.str_field("exec_id"@),
            j.str_field("stdout"@),
            j.str_field("stderr"@),
            j.str_field("status"@),
            j.opt_i32_field("exit_code"@),
            j.opt_str_field("error"@),
            j.opt_str_field("_mcp_request_id"@),
        ) {
            (
                Some(exec_id),
                Some(stdout),
                Some(stderr),
                Some(status),
                Some(exit_code),
                Some(error),
                Some(_mcp_request_id),
            ) => Some(
                ExecResultView {
                    exec_id,
                    stdout,
                    stderr,
                    status,
                    exit_code,
                    error,
                    _mcp_request_id,
                },
            ),
            _ => None,
        }
    }
}

impl ExecResultPayload {
    /// The document that carries it.
    pub fn to_json(&self) -> (r: Json)
        ensures
            r@ == self@.json(),
    {
        Json::object()
            .with_str("exec_id", self.exec_id.as_str())
            .with_str("stdout", self.stdout.as_str())
            .with_str("stderr", self.stderr.as_str())
            .with_str("status", self.status.as_str())
            .with_opt_int("exit_code", wide_i32(self.exit_code))
            .with_opt_str("error", &self.error)
            .with_opt_str("_mcp_request_id", &self._mcp_request_id)
    }

    /// Reads what a document carries.
    pub fn from_json(j: &Json) -> (r: Option<ExecResultPayload>)
        ensures
            match r {
                Some(p) => ExecResultView::of(j@) == Some(p@),
                None => ExecResultView::of(j@) is None,
            },
    {
        let names = [
            "exec_id",
            "stdout",
            "stderr",
            "status",
            "exit_code",
            "error",
            "_mcp_request_id",
        ];
        assert(names_view(names@) =~= ExecResultView::names());
        match j.listed(&names) {
            Some(o) => Self::from_object(&o),
            None => if j.is_object() {
                Self::from_object(j)
            } else {
                None
            },
        }
    }

    fn from_object(j: &Json) -> (r: Option<ExecResultPayload>)
        ensures
            match r {
                Some(p) => ExecResultView::of_object(j@) == Some(p@),
                None => ExecResultView::of_object(j@) is None,
            },
    {
        let exec_id = match j.str_field("exec_id") {
            Some(x) => x.to_owned(),
            None => {
                return None;
            },
        };
        let stdout = match j.str_field("stdout") {
            Some(x) => x.to_owned(),
            None => {
                return None;
            },
        };
        let stderr = match j.str_field("stderr") {
            Some(x) => x.to_owned(),
            None => {
                return None;
            },
        };
        let status = match j.str_field("status") {
            Some(x) => x.to_owned(),
            None => {
                return None;
            },
        };
        let exit_code = match j.opt_i32_field("exit_code") {
            Some(x) => x,
            None => {
                return None;
            },
        };
        let error = match j.opt_str_field("error") {
            Some(x) => x,
            None => {
                return None;
            },
        };
        let _mcp_request_id = match j.opt_str_field("_mcp_request_id") {
            Some(x) => x,
            None => {
                return None;
            },
        };
        Some(ExecResultPayload { exec_id, stdout, stderr, status, exit_code, error, _mcp_request_id })
    }
}

/// One background command.
#[derive(Debug, PartialEq)]
pub struct ExecSessionInfo {
    pub exec_id: String,
    pub cmd: String,
    pub status: String,
    pub started_at: u64,
}

pub struct ExecSessionInfoView {
    pub exec_id: Seq<char>,
    pub cmd: Seq<char>,
    pub status: Seq<char>,
    pub started_at: u64,
}

impl View for ExecSessionInfo {
    type V = ExecSessionInfoView;

    open spec fn view(&self) -> ExecSessionInfoView {
        ExecSessionInfoView {
            exec_id: self.exec_id@,
            cmd: self.cmd@,
            status: self.status@,
            started_at: self.started_at,
        }
    }
}

impl ExecSessionInfoView {
    /// The document that carries it.
    pub open spec fn json(self) -> JsonView {
        JsonView::object()
            .with_str("exec_id"@, self.exec_id)
            .with_str("cmd"@, self.cmd)
            .with_str("status"@, self.status)
            .with("started_at"@, JsonView::Int(self.started_at as int))
    }

    /// The names of its fields, in order.
    pub open spec fn names() -> Seq<Seq<char>> {
        seq!["exec_id"@, "cmd"@, "status"@, "started_at"@]
    }

    /// What a document carries.
    pub open spec fn of(j: JsonView) -> Option<ExecSessionInfoView> {
        match j.record(Self::names()) {
            Some(o) => Self::of_object(o),
            None => None,
        }
    }

    /// What an object carries.
    pub open spec fn of_object(j: JsonView) -> Option<ExecSessionInfoView> {
        match (
            j.str_field("exec_id"@),
            j.str_field("cmd"@),
            j.str_field("status"@),
            j.u64_field("started_at"@),
        ) {
            (Some(exec_id), Some(cmd), Some(status), Some(started_at)) => Some(
                ExecSessionInfoView { exec_id, cmd, status, started_at },
            ),
            _ => None,
        }
    }
}

impl ExecSessionInfo {
    /// The document that carries it.
    pub fn to_json(&self) -> (r: Json)
        ensures
            r@ == self@.json(),
    {
        Json::object()
            .with_str("exec_id", self.exec_id.as_str())
            .with_str("cmd", self.cmd.as_str())
            .with_str("status", self.status.as_str())
            .with("started_at", Json::Int(self.started_at as i128))
    }

    /// Reads what a document carries.
    pub fn from_json(j: &Json) -> (r: Option<ExecSessionInfo>)
        ensures
            match r {
                Some(p) => ExecSessionInfoView::of(j@) == Some(p@),
                None => ExecSessionInfoView::of(j@) is None,
            },
    {
        let names = ["exec_id", "cmd", "status", "started_at"];
        assert(names_view(names@) =~= ExecSessionInfoView::names());
        match j.listed(&names) {
            Some(o) => Self::from_object(&o),
            None => if j.is_object() {
                Self::from_object(j)
            } else {
                None
            },
        }
    }

    fn from_object(j: &Json) -> (r: Option<ExecSessionInfo>)
        ensures
            match r {
                Some(p) => ExecSessionInfoView::of_object(j@) == Some(p@),
                None => ExecSessionInfoView::of_object(j@) is None,
            },
    {
        let exec_id = match j.str_field("exec_id") {
            Some(x) => x.to_owned(),
            None => {
                return None;
            },
        };
        let cmd = match j.str_field("cmd") {
            Some(x) => x.to_owned(),
            None => {
                return None;
            },
        };
        let status = match j.str_field("status") {
            Some(x) => x.to_owned(),
            None => {
                return None;
            },
        };
        let started_at = match j.u64_field("started_at") {
            Some(x) => x,
            None => {
                return None;
            },
        };
        Some(ExecSessionInfo { exec_id, cmd, status, started_at })
    }
}

/// An error.
#[derive(Debug, PartialEq)]
pub struct ErrorPayload {
    pub code: String,
    pub message: String,
}

pub struct ErrorView {
    pub code: Seq<char>,
    pub message: Seq<char>,
}

impl View for ErrorPayload {
    type V = ErrorView;

    open spec fn view(&self) -> ErrorView {
        ErrorView {
            code: self.code@,
            message: self.message@,
        }
    }
}

impl ErrorView {
    /// The document that carries it.
    pub open spec fn json(self) -> JsonView {
        JsonView::object()
            .with_str("code"@, self.code)
            .with_str("message"@, self.message)
    }

    /// The names of its fields, in order.
    pub open spec fn names() -> Seq<Seq<char>> {
        seq!["code"@, "message"@]
    }

    /// What a document carries.
    pub open spec fn of(j: JsonView) -> Option<ErrorView> {
        match j.record(Self::names()) {
            Some(o) => Self::of_object(o),
            None => None,
        }
    }

    /// What an object carries.
    pub open spec fn of_object(j: JsonView) -> Option<ErrorView> {
        match (j.str_field("code"@), j.str_field("message"@)) {
            (Some(code), Some(message)) => Some(ErrorView { code, message }),
            _ => None,
        }
    }
}

impl ErrorPayload {
    /// The document that carries it.
    pub fn to_json(&self) -> (r: Json)
        ensures
            r@ == self@.json(),
    {
        Json::object()
            .with_str("code", self.code.as_str())
            .with_str("message", self.message.as_str())
    }

    /// Reads what a document carries.
    pub fn from_json(j: &Json) -> (r: Option<ErrorPayload>)
        ensures
            match r {
                Some(p) => ErrorView::of(j@) == Some(p@),
                None => ErrorView::of(j@) is None,
            },
    {
        let names = ["code", "message"];
        assert(names_view(names@) =~= ErrorView::names());
        match j.listed(&names) {
            Some(o) => Self::from_object(&o),
            None => if j.is_object() {
                Self::from_object(j)
            } else {
                None
            },
        }
    }

    fn from_object(j: &Json) -> (r: Option<ErrorPayload>)
        ensures
            match r {
                Some(p) => ErrorView::of_object(j@) == Some(p@),
                None => ErrorView::of_object(j@) is None,
            },
    {
        let code = match j.str_field("code") {
            Some(x) => x.to_owned(),
            None => {
                return None;
            },
        };
        let message = match j.str_field("message") {
            Some(x) => x.to_owned(),
            None => {
                return None;
            },
        };
        Some(ErrorPayload { code, message })
    }
}

/// What is typed into a tab, in base64.
#[derive(Debug, PartialEq)]
pub struct TerminalInputPayload {
    pub data: String,
    pub tab_id: Option<String>,
}

pub struct TerminalInputView {
    pub data: Seq<char>,
    pub tab_id: Option<Seq<char>>,
}

impl View for TerminalInputPayload {
    type V = TerminalInputView;

    open spec fn view(&self) -> TerminalInputView {
        TerminalInputView {
            data: self.data@,
            tab_id: opt_text(self.tab_id),
        }
    }
}

impl TerminalInputView {
    /// The document that carries it.
    pub open spec fn json(self) -> JsonView {
        JsonView::object()
            .with_str("data"@, self.data)
            .with_opt_str("tab_id"@, self.tab_id)
    }

    /// The names of its fields, in order.
    pub open spec fn names() -> Seq<Seq<char>> {
        seq!["data"@, "tab_id"@]
    }

    /// What a document carries.
    pub open spec fn of(j: JsonView) -> Option<TerminalInputView> {
        match j.record(Self::names()) {
            Some(o) => Self::of_object(o),
            None => None,
        }
    }

    /// What an object carries.
    pub open spec fn of_object(j: JsonView) -> Option<TerminalInputView> {
        match (j.str_field("data"@), j.opt_str_field("tab_id"@)) {
            (Some(data), Some(tab_id)) => Some(TerminalInputView { data, tab_id }),
            _ => None,
        }
    }
}

impl TerminalInputPayload {
    /// The document that carries it.
    pub fn to_json(&self) -> (r: Json)
        ensures
            r@ == self@.json(),
    {
        Json::object()
            .with_str("data", self.data.as_str())
            .with_opt_str("tab_id", &self.tab_id)
    }

    /// Reads what a document carries.
    pub fn from_json(j: &Json) -> (r: Option<TerminalInputPayload>)
        ensures
            match r {
                Some(p) => TerminalInputView::of(j@) == Some(p@),
                None => TerminalInputView::of(j@) is None,
            },
    {
        let names = ["data", "tab_id"];
        assert(names_view(names@) =~= TerminalInputView::names());
        match j.listed(&names) {
            Some(o) => Self::from_object(&o),
            None => if j.is_object() {
                Self::from_object(j)
            } else {
                None
            },
        }
    }

    fn from_object(j: &Json) -> (r: Option<TerminalInputPayload>)
        ensures
            match r {
                Some(p) => TerminalInputView::of_object(j@) == Some(p@),
                None => TerminalInputView::of_object(j@) is None,
            },
    {
        let data = match j.str_field("data") {
            Some(x) => x.to_owned(),
            None => {
                return None;
            },
        };
        let tab_id = match j.opt_str_field("tab_id") {
            Some(x) => x,
            None => {
                return None;
            },
        };
        Some(TerminalInputPayload { data, tab_id })
    }
}

/// The size that a tab's terminal is to have.
#[derive(Debug, PartialEq)]
pub struct TerminalResizePayload {
    pub cols: u16,
    pub rows: u16,
    pub tab_id: Option<String>,
}

pub struct TerminalResizeView {
    pub cols: u16,
    pub rows: u16,
    pub tab_id: Option<Seq<char>>,
}

impl View for TerminalResizePayload {
    type V = TerminalResizeView;

    open spec fn view(&self) -> TerminalResizeView {
        TerminalResizeView {
            cols: self.cols,
            rows: self.rows,
            tab_id: opt_text(self.tab_id),
        }
    }
}

impl TerminalResizeView {
    /// The document that carries it.
    pub open spec fn json(self) -> JsonView {
        JsonView::object()
            .with("cols"@, JsonView::Int(self.cols as int))
            .with("rows"@, JsonView::Int(self.rows as int))
            .with_opt_str("tab_id"@, self.tab_id)
    }

    /// The names of its fields, in order.
    pub open spec fn names() -> Seq<Seq<char>> {
        seq!["cols"@, "rows"@, "tab_id"@]
    }

    /// What a document carries.
    pub open spec fn of(j: JsonView) -> Option<TerminalResizeView> {
        match j.record(Self::names()) {
            Some(o) => Self::of_object(o),
            None => None,
        }
    }

    /// What an object carries.
    pub open spec fn of_object(j: JsonView) -> Option<TerminalResizeView> {
        match (j.u16_field("cols"@), j.u16_field("rows"@), j.opt_str_field("tab_id"@)) {
            (Some(cols), Some(rows), Some(tab_id)) => Some(
                TerminalResizeView { cols, rows, tab_id },
            ),
            _ => None,
        }
    }
}

impl TerminalResizePayload {
    /// The document that carries it.
    pub fn to_json(&self) -> (r: Json)
        ensures
            r@ == self@.json(),
    {
        Json::object()
            .with("cols", Json::Int(self.cols as i128))
            .with("rows", Json::Int(self.rows as i128))
            .with_opt_str("tab_id", &self.tab_id)
    }

    /// Reads what a document carries.
    pub fn from_json(j: &Json) -> (r: Option<TerminalResizePayload>)
        ensures
            match r {
                Some(p) => TerminalResizeView::of(j@) == Some(p@),
                None => TerminalResizeView::of(j@) is None,
            },
    {
        let names = ["cols", "rows", "tab_id"];
        assert(names_view(names@) =~= TerminalResizeView::names());
        match j.listed(&names) {
            Some(o) => Self::from_object(&o),
            None => if j.is_object() {
                Self::from_object(j)
            } else {
                None
            },
        }
    }

    fn from_object(j: &Json) -> (r: Option<TerminalResizePayload>)
        ensures
            match r {
                Some(p) => TerminalResizeView::of_object(j@) == Some(p@),
                None => TerminalResizeView::of_object(j@) is None,
            },
    {
        let cols = match j.u16_field("cols") {
            Some(x) => x,
            None => {
                return None;
            },
        };
        let rows = match j.u16_field("rows") {
            Some(x) => x,
            None => {
                return None;
            },
        };
        let tab_id = match j.opt_str_field("tab_id") {
            Some(x) => x,
            None => {
                return None;
            },
        };
        Some(TerminalResizePayload { cols, rows, tab_id })
    }
}

/// What is typed into a background command, in base64.
#[derive(Debug, PartialEq)]
pub struct ExecInputPayload {
    pub exec_id: String,
    pub data_b64: String,
    pub _mcp_request_id: Option<String>,
}

pub struct ExecInputView {
    pub exec_id: Seq<char>,
    pub data_b64: Seq<char>,
    pub _mcp_request_id: Option<Seq<char>>,
}

impl View for ExecInputPayload {
    type V = ExecInputView;

    open spec fn view(&self) -> ExecInputView {
        ExecInputView {
            exec_id: self.exec_id@,
            data_b64: self.data_b64@,
            _mcp_request_id: opt_text(self._mcp_request_id),
        }
    }
}

impl ExecInputView {
    /// The document that carries it.
    pub open spec fn json(self) -> JsonView {
        JsonView::object()
            .with_str("exec_id"@, self.exec_id)
            .with_str("data_b64"@, self.data_b64)
            .with_opt_str("_mcp_request_id"@, self._mcp_request_id)
    }

    /// The names of its fields, in order.
    pub open spec fn names() -> Seq<Seq<char>> {
        seq!["exec_id"@, "data_b64"@, "_mcp_request_id"@]
    }

    /// What a document carries.
    pub open spec fn of(j: JsonView) -> Option<ExecInputView> {
        match j.record(Self::names()) {
            Some(o) => Self::of_object(o),
            None => None,
        }
    }

    /// What an object carries.
    pub open spec fn of_object(j: JsonView) -> Option<ExecInputView> {
        match (
            j.str_field("exec_id"@),
            j.str_field("data_b64"@),
            j.opt_str_field("_mcp_request_id"@),
        ) {
            (Some(exec_id), Some(data_b64), Some(_mcp_request_id)) => Some(
                ExecInputView { exec_id, data_b64, _mcp_request_id },
            ),
            _ => None,
        }
    }
}

impl ExecInputPayload {
    /// The document that carries it.
    pub fn to_json(&self) -> (r: Json)
        ensures
            r@ == self@.json(),
    {
        Json::object()
            .with_str("exec_id", self.exec_id.as_str())
            .with_str("data_b64", self.data_b64.as_str())
            .with_opt_str("_mcp_request_id", &self._mcp_request_id)
    }

    /// Reads what a document carries.
    pub fn from_json(j: &Json) -> (r: Option<ExecInputPayload>)
        ensures
            match r {
                Some(p) => ExecInputView::of(j@) == Some(p@),
                None => ExecInputView::of(j@) is None,
            },
    {
        let names = ["exec_id", "data_b64", "_mcp_request_id"];
        assert(names_view(names@) =~= ExecInputView::names());
        match j.listed(&names) {
            Some(o) => Self::from_object(&o),
            None => if j.is_object() {
                Self::from_object(j)
            } else {
                None
            },
        }
    }

    fn from_object(j: &Json) -> (r: Option<ExecInputPayload>)
        ensures
            match r {
                Some(p) => ExecInputView::of_object(j@) == Some(p@),
                None => ExecInputView::of_object(j@) is None,
            },
    {
        let exec_id = match j.str_field("exec_id") {
            Some(x) => x.to_owned(),
            None => {
                return None;
            },
        };
        let data_b64 = match j.str_field("data_b64") {
            Some(x) => x.to_owned(),
            None => {
                return None;
            },
        };
        let _mcp_request_id = match j.opt_str_field("_mcp_request_id") {
            Some(x) => x,
            None => {
                return None;
            },
        };
        Some(ExecInputPayload { exec_id, data_b64, _mcp_request_id })
    }
}

/// A background command that is to end.
#[derive(Debug, PartialEq)]
pub struct ExecClosePayload {
    pub exec_id: String,
    pub _mcp_request_id: Option<String>,
}

pub struct ExecCloseView {
    pub exec_id: Seq<char>,
    pub _mcp_request_id: Option<Seq<char>>,
}

impl View for ExecClosePayload {
    type V = ExecCloseView;

    open spec fn view(&self) -> ExecCloseView {
        ExecCloseView {
            exec_id: self.exec_id@,
            _mcp_request_id: opt_text(self._mcp_request_id),
        }
    }
}

impl ExecCloseView {
    /// The document that carries it.
    pub open spec fn json(self) -> JsonView {
        JsonView::object()
            .with_str("exec_id"@, self.exec_id)
            .with_opt_str("_mcp_request_id"@, self._mcp_request_id)
    }

    /// The names of its fields, in order.
    pub open spec fn names() -> Seq<Seq<char>> {
        seq!["exec_id"@, "_mcp_request_id"@]
    }

    /// What a document carries.
    pub open spec fn of(j: JsonView) -> Option<ExecCloseView> {
        match j.record(Self::names()) {
            Some(o) => Self::of_object(o),
            None => None,
        }
    }

    /// What an object carries.
    pub open spec fn of_object(j: JsonView) -> Option<ExecCloseView> {
        match (j.str_field("exec_id"@), j.opt_str_field("_mcp_request_id"@)) {
            (Some(exec_id), Some(_mcp_request_id)) => Some(
                ExecCloseView { exec_id, _mcp_request_id },
            ),
            _ => None,
        }
    }
}

impl ExecClosePayload {
    /// The document that carries it.
    pub fn to_json(&self) -> (r: Json)
        ensures
            r@ == self@.json(),
    {
        Json::object()
            .with_str("exec_id", self.exec_id.as_str())
            .with_opt_str("_mcp_request_id", &self._mcp_request_id)
    }

    /// Reads what a document carries.
    pub fn from_json(j: &Json) -> (r: Option<ExecClosePayload>)
        ensures
            match r {
                Some(p) => ExecCloseView::of(j@) == Some(p@),
                None => ExecCloseView::of(j@) is None,
            },
    {
        let names = ["exec_id", "_mcp_request_id"];
        assert(names_view(names@) =~= ExecCloseView::names());
        match j.listed(&names) {
            Some(o) => Self::from_object(&o),
            None => if j.is_object() {
                Self::from_object(j)
            } else {
                None
            },
        }
    }

    fn from_object(j: &Json) -> (r: Option<ExecClosePayload>)
        ensures
            match r {
                Some(p) => ExecCloseView::of_object(j@) == Some(p@),
                None => ExecCloseView::of_object(j@) is None,
            },
    {
        let exec_id = match j.str_field("exec_id") {
            Some(x) => x.to_owned(),
            None => {
                return None;
            },
        };
        let _mcp_request_id = match j.opt_str_field("_mcp_request_id") {
            Some(x) => x,
            None => {
                return None;
            },
        };
        Some(ExecClosePayload { exec_id, _mcp_request_id })
    }
}

/// A request for the list of background commands.
#[derive(Debug, PartialEq)]
pub struct ExecListPayload {
    pub _mcp_request_id: Option<String>,
}

pub struct ExecListView {
    pub _mcp_request_id: Option<Seq<char>>,
}

impl View for ExecListPayload {
    type V = ExecListView;

    open spec fn view(&self) -> ExecListView {
        ExecListView {
            _mcp_request_id: opt_text(self._mcp_request_id),
        }
    }
}

impl ExecListView {
    /// The document that carries it.
    pub open spec fn json(self) -> JsonView {
        JsonView::object()
            .with_opt_str("_mcp_request_id"@, self._mcp_request_id)
    }

    /// The names of its fields, in order.
    pub open spec fn names() -> Seq<Seq<char>> {
        seq!["_mcp_request_id"@]
    }

    /// What a document carries.
    pub open spec fn of(j: JsonView) -> Option<ExecListView> {
        match j.record(Self::names()) {
            Some(o) => Self::of_object(o),
            None => None,
        }
    }

    /// What an object carries.
    pub open spec fn of_object(j: JsonView) -> Option<ExecListView> {
        match j.opt_str_field("_mcp_request_id"@) {
            Some(_mcp_request_id) => Some(ExecListView { _mcp_request_id }),
            None => None,
        }
    }
}

impl ExecListPayload {
    /// The document that carries it.
    pub fn to_json(&self) -> (r: Json)
        ensures
            r@ == self@.json(),
    {
        Json::object()
            .with_opt_str("_mcp_request_id", &self._mcp_request_id)
    }

    /// Reads what a document carries.
    pub fn from_json(j: &Json) -> (r: Option<ExecListPayload>)
        ensures
            match r {
                Some(p) => ExecListView::of(j@) == Some(p@),
                None => ExecListView::of(j@) is None,
            },
    {
        let names = ["_mcp_request_id"];
        assert(names_view(names@) =~= ExecListView::names());
        match j.listed(&names) {
            Some(o) => Self::from_object(&o),
            None => if j.is_object() {
                Self::from_object(j)
            } else {
                None
            },
        }
    }

    fn from_object(j: &Json) -> (r: Option<ExecListPayload>)
        ensures
            match r {
                Some(p) => ExecListView::of_object(j@) == Some(p@),
                None => ExecListView::of_object(j@) is None,
            },
    {
        let _mcp_request_id = match j.opt_str_field("_mcp_request_id") {
            Some(x) => x,
            None => {
                return None;
            },
        };
        Some(ExecListPayload { _mcp_request_id })
    }
}

/// A user of a session.
#[derive(Debug, PartialEq)]
pub struct UserInfo {
    pub user_id: String,
    pub permission: Permission,
}

pub struct UserInfoView {
    pub user_id: Seq<char>,
    pub permission: Permission,
}

impl View for UserInfo {
    type V = UserInfoView;

    open spec fn view(&self) -> UserInfoView {
        UserInfoView {
            user_id: self.user_id@,
            permission: self.permission,
        }
    }
}

impl UserInfoView {
    /// The document that carries it.
    pub open spec fn json(self) -> JsonView {
        JsonView::object()
            .with_str("user_id"@, self.user_id)
            .with_str("permission"@, self.permission.wire_name())
    }

    /// The names of its fields, in order.
    pub open spec fn names() -> Seq<Seq<char>> {
        seq!["user_id"@, "permission"@]
    }

    /// What a document carries.
    pub open spec fn of(j: JsonView) -> Option<UserInfoView> {
        match j.record(Self::names()) {
            Some(o) => Self::of_object(o),
            None => None,
        }
    }

    /// What an object carries.
    pub open spec fn of_object(j: JsonView) -> Option<UserInfoView> {
        match (j.str_field("user_id"@), read_permission(j.get("permission"@))) {
            (Some(user_id), Some(permission)) => Some(UserInfoView { user_id, permission }),
            _ => None,
        }
    }
}

impl UserInfo {
    /// The document that carries it.
    pub fn to_json(&self) -> (r: Json)
        ensures
            r@ == self@.json(),
    {
        Json::object()
            .with_str("user_id", self.user_id.as_str())
            .with_str("permission", self.permission.wire_str())
    }

    /// Reads what a document carries.
    pub fn from_json(j: &Json) -> (r: Option<UserInfo>)
        ensures
            match r {
                Some(p) => UserInfoView::of(j@) == Some(p@),
                None => UserInfoView::of(j@) is None,
            },
    {
        let names = ["user_id", "permission"];
        assert(names_view(names@) =~= UserInfoView::names());
        match j.listed(&names) {
            Some(o) => Self::from_object(&o),
            None => if j.is_object() {
                Self::from_object(j)
            } else {
                None
            },
        }
    }

    fn from_object(j: &Json) -> (r: Option<UserInfo>)
        ensures
            match r {
                Some(p) => UserInfoView::of_object(j@) == Some(p@),
                None => UserInfoView::of_object(j@) is None,
            },
    {
        let user_id = match j.str_field("user_id") {
            Some(x) => x.to_owned(),
            None => {
                return None;
            },
        };
        let permission = match permission_of(j.get("permission")) {
            Some(x) => x,
            None => {
                return None;
            },
        };
        Some(UserInfo { user_id, permission })
    }
}

impl Permission {
    /// The name that a permission goes by on the wire.
    pub open spec fn wire_name(self) -> Seq<char> {
        match self {
            Permission::ReadWrite => "readwrite"@,
            Permission::ReadOnly => "readonly"@,
        }
    }

    fn wire_str(&self) -> (r: &'static str)
        ensures
            r@ == self.wire_name(),
    {
        match self {
            Permission::ReadWrite => "readwrite",
            Permission::ReadOnly => "readonly",
        }
    }
}

/// Whether a document stands for a permission: its name, or an object that holds null under that
/// name and nothing else.
pub open spec fn says_permission(j: JsonView, p: Permission) -> bool {
    match j {
        JsonView::Str(s) => s == p.wire_name(),
        JsonView::Obj(m) => m == Map::<Seq<char>, JsonView>::empty().insert(
            p.wire_name(),
            JsonView::Null,
        ),
        _ => false,
    }
}

/// The permission that a field stands for.
pub open spec fn read_permission(o: Option<JsonView>) -> Option<Permission> {
    match o {
        Some(j) => if says_permission(j, Permission::ReadWrite) {
            Some(Permission::ReadWrite)
        } else if says_permission(j, Permission::ReadOnly) {
            Some(Permission::ReadOnly)
        } else {
            None
        },
        None => None,
    }
}

fn does_say_permission(j: &Json, p: Permission) -> (r: bool)
    ensures
        r == says_permission(j@, p),
{
    match j {
        Json::Str(s) => str_eq(s.as_str(), p.wire_str()),
        Json::Obj(_) => j.holds_only_null(p.wire_str()),
        _ => false,
    }
}

fn permission_of(o: Option<&Json>) -> (r: Option<Permission>)
    ensures
        r == match o {
            Some(j) => read_permission(Some(j@)),
            None => None,
        },
{
    match o {
        Some(j) => if does_say_permission(j, Permission::ReadWrite) {
            Some(Permission::ReadWrite)
        } else if does_say_permission(j, Permission::ReadOnly) {
            Some(Permission::ReadOnly)
        } else {
            None
        },
        None => None,
    }
}

pub open spec fn opt_u64(o: Option<u64>) -> Option<int> {
    match o {
        Some(n) => Some(n as int),
        None => None,
    }
}

pub open spec fn opt_i32(o: Option<i32>) -> Option<int> {
    match o {
        Some(n) => Some(n as int),
        None => None,
    }
}

fn wide_u64(o: Option<u64>) -> (r: Option<i128>)
    ensures
        match r {
            Some(n) => opt_u64(o) == Some(n as int),
            None => opt_u64(o) is None,
        },
{
    match o {
        Some(n) => Some(n as i128),
        None => None,
    }
}

fn wide_i32(o: Option<i32>) -> (r: Option<i128>)
    ensures
        match r {
            Some(n) => opt_i32(o) == Some(n as int),
            None => opt_i32(o) is None,
        },
{
    match o {
        Some(n) => Some(n as i128),
        None => None,
    }
}

pub open spec fn entries_view(v: Seq<FileEntry>) -> Seq<FileEntryView> {
    v.map_values(|e: FileEntry| e@)
}

pub open spec fn opt_entries(o: Option<Vec<FileEntry>>) -> Option<Seq<FileEntryView>> {
    match o {
        Some(v) => Some(entries_view(v@)),
        None => None,
    }
}

/// The entries of a directory, as documents list them.
pub open spec fn entries_doc(o: Option<Seq<FileEntryView>>) -> Option<JsonView> {
    match o {
        Some(v) => Some(JsonView::Arr(v.map_values(|e: FileEntryView| e.json()))),
        None => None,
    }
}

/// The entries that items of a list carry, if each carries one.
pub open spec fn read_all(items: Seq<JsonView>) -> Option<Seq<FileEntryView>>
    decreases items.len(),
{
    if items.len() == 0 {
        Some(Seq::empty())
    } else {
        match (read_all(items.drop_last()), FileEntryView::of(items.last())) {
            (Some(v), Some(e)) => Some(v.push(e)),
            _ => None,
        }
    }
}

/// The entries of a field that may be left out or null; none where it is anything else.
pub open spec fn read_entries(o: Option<JsonView>) -> Option<Option<Seq<FileEntryView>>> {
    match o {
        None => Some(None),
        Some(JsonView::Null) => Some(None),
        Some(JsonView::Arr(items)) => match read_all(items) {
            Some(v) => Some(Some(v)),
            None => None,
        },
        Some(_) => None,
    }
}

fn entries_json(o: &Option<Vec<FileEntry>>) -> (r: Option<Json>)
    ensures
        match r {
            Some(j) => entries_doc(opt_entries(*o)) == Some(j@),
            None => entries_doc(opt_entries(*o)) is None,
        },
{
    match o {
        None => None,
        Some(v) => {
            let mut items: Vec<Json> = Vec::new();
            let mut i: usize = 0;
            while i < v.len()
                invariant
                    i <= v@.len(),
                    items@.len() == i,
                    forall|j: int| 0 <= j < i ==> (#[trigger] items@[j])@ == v@[j]@.json(),
                decreases v@.len() - i,
            {
                items.push(v[i].to_json());
                i = i + 1;
            }
            proof {
                lemma_items_view(items@);
                assert(items_view(items@) =~= entries_view(v@).map_values(
                    |e: FileEntryView| e.json(),
                ));
            }
            Some(Json::Arr(items))
        },
    }
}

proof fn lemma_read_all_none(items: Seq<JsonView>, i: int)
    requires
        0 <= i < items.len(),
        FileEntryView::of(items[i]) is None,
    ensures
        read_all(items) is None,
    decreases items.len(),
{
    if i < items.len() - 1 {
        lemma_read_all_none(items.drop_last(), i);
    }
}

fn entries_of(o: Option<&Json>) -> (r: Option<Option<Vec<FileEntry>>>)
    ensures
        ({
            let j = match o {
                Some(j) => Some(j@),
                None => None,
            };
            match r {
                Some(v) => read_entries(j) == Some(opt_entries(v)),
                None => read_entries(j) is None,
            }
        }),
{
    match o {
        None => Some(None),
        Some(Json::Null) => Some(None),
        Some(Json::Arr(items)) => {
            let ghost all = items_view(items@);
            proof {
                lemma_items_view(items@);
            }
            let mut v: Vec<FileEntry> = Vec::new();
            let mut i: usize = 0;
            assert(all.take(0) =~= Seq::<JsonView>::empty());
            assert(entries_view(v@) =~= Seq::<FileEntryView>::empty());
            while i < items.len()
                invariant
                    i <= items@.len(),
                    all == items_view(items@),
                    all.len() == items@.len(),
                    forall|j: int| 0 <= j < items@.len() ==> #[trigger] all[j] == items@[j]@,
                    read_all(all.take(i as int)) == Some(entries_view(v@)),
                    *o->0 == Json::Arr(*items),
                    o is Some,
                decreases items@.len() - i,
            {
                assert(all.take(i + 1).drop_last() =~= all.take(i as int));
                assert(all.take(i + 1).last() == items@[i as int]@);
                match FileEntry::from_json(&items[i]) {
                    Some(e) => {
                        let ghost before = entries_view(v@);
                        v.push(e);
                        assert(entries_view(v@) =~= before.push(e@));
                    },
                    None => {
                        proof {
                            lemma_read_all_none(all, i as int);
                        }
                        return None;
                    },
                }
                i = i + 1;
            }
            assert(all.take(all.len() as int) =~= all);
            Some(Some(v))
        },
        Some(_) => None,
    }
}

// ---- laws ----
/// Reading the document that carries a value gives the value back.
pub proof fn terminal_output_payload_round_trip(v: TerminalOutputView)
    ensures
        TerminalOutputView::of(v.json()) == Some(v),
{
    reveal_strlit("data");
    reveal_strlit("tab_id");
    assert("data"@.len() != "tab_id"@.len());
}

/// Reading the document that carries a value gives the value back.
pub proof fn file_entry_round_trip(v: FileEntryView)
    ensures
        FileEntryView::of(v.json()) == Some(v),
{
    reveal_strlit("name");
    reveal_strlit("path");
    reveal_strlit("type");
    reveal_strlit("size");
    reveal_strlit("mode");
    reveal_strlit("owner");
    assert("name"@[0] != "path"@[0]);
    assert("name"@[0] != "type"@[0]);
    assert("name"@[0] != "size"@[0]);
    assert("name"@[0] != "mode"@[0]);
    assert("name"@.len() != "owner"@.len());
    assert("path"@[0] != "type"@[0]);
    assert("path"@[0] != "size"@[0]);
    assert("path"@[0] != "mode"@[0]);
    assert("path"@.len() != "owner"@.len());
    assert("type"@[0] != "size"@[0]);
    assert("type"@[0] != "mode"@[0]);
    assert("type"@.len() != "owner"@.len());
    assert("size"@[0] != "mode"@[0]);
    assert("size"@.len() != "owner"@.len());
    assert("mode"@.len() != "owner"@.len());
}

/// Reading the document that carries a value gives the value back.
pub proof fn fs_result_payload_round_trip(v: FsResultView)
    ensures
        FsResultView::of(v.json()) == Some(v),
{
    reveal_strlit("success");
    reveal_strlit("error");
    reveal_strlit("entries");
    reveal_strlit("content");
    reveal_strlit("path");
    reveal_strlit("new_path");
    assert("success"@.len() != "error"@.len());
    assert("success"@[0] != "entries"@[0]);
    assert("success"@[0] != "content"@[0]);
    assert("success"@.len() != "path"@.len());
    assert("success"@.len() != "new_path"@.len());
    assert("error"@.len() != "entries"@.len());
    assert("error"@.len() != "content"@.len());
    assert("error"@.len() != "path"@.len());
    assert("error"@.len() != "new_path"@.len());
    assert("entries"@[0] != "content"@[0]);
    assert("entries"@.len() != "path"@.len());
    assert("entries"@.len() != "new_path"@.len());
    assert("content"@.len() != "path"@.len());
    assert("content"@.len() != "new_path"@.len());
    assert("path"@.len() != "new_path"@.len());
    if let Some(entries) = v.entries {
        lemma_read_all_back(entries);
    }
}

/// Reading the document that carries a value gives the value back.
pub proof fn mcp_exec_payload_round_trip(v: McpExecView)
    ensures
        McpExecView::of(v.json()) == Some(v),
{
    reveal_strlit("cmd");
    reveal_strlit("timeout_ms");
    assert("cmd"@.len() != "timeout_ms"@.len());
}

/// Reading the document that carries a value gives the value back.
pub proof fn mcp_result_payload_round_trip(v: McpResultView)
    ensures
        McpResultView::of(v.json()) == Some(v),
{
    reveal_strlit("stdout");
    reveal_strlit("stderr");
    reveal_strlit("exit_code");
    assert("stdout"@[3] != "stderr"@[3]);
    assert("stdout"@.len() != "exit_code"@.len());
    assert("stderr"@.len() != "exit_code"@.len());
}

/// Reading the document that carries a value gives the value back.
pub proof fn exec_start_payload_round_trip(v: ExecStartView)
    ensures
        ExecStartView::of(v.json()) == Some(v),
{
    reveal_strlit("cmd");
    reveal_strlit("_mcp_request_id");
    assert("cmd"@.len() != "_mcp_request_id"@.len());
}

/// Reading the document that carries a value gives the value back.
pub proof fn exec_result_payload_round_trip(v: ExecResultView)
    ensures
        ExecResultView::of(v.json()) == Some(v),
{
    reveal_strlit("exec_id");
    reveal_strlit("stdout");
    reveal_strlit("stderr");
    reveal_strlit("status");
    reveal_strlit("exit_code");
    reveal_strlit("error");
    reveal_strlit("_mcp_request_id");
    assert("exec_id"@.len() != "stdout"@.len());
    assert("exec_id"@.len() != "stderr"@.len());
    assert("exec_id"@.len() != "status"@.len());
    assert("exec_id"@.len() != "exit_code"@.len());
    assert("exec_id"@.len() != "error"@.len());
    assert("exec_id"@.len() != "_mcp_request_id"@.len());
    assert("stdout"@[3] != "stderr"@[3]);
    assert("stdout"@[2] != "status"@[2]);
    assert("stdout"@.len() != "exit_code"@.len());
    assert("stdout"@.len() != "error"@.len());
    assert("stdout"@.len() != "_mcp_request_id"@.len());
    assert("stderr"@[2] != "status"@[2]);
    assert("stderr"@.len() != "exit_code"@.len());
    assert("stderr"@.len() != "error"@.len());
    assert("stderr"@.len() != "_mcp_request_id"@.len());
    assert("status"@.len() != "exit_code"@.len());
    assert("status"@.len() != "error"@.len());
    assert("status"@.len() != "_mcp_request_id"@.len());
    assert("exit_code"@.len() != "error"@.len());
    assert("exit_code"@.len() != "_mcp_request_id"@.len());
    assert("error"@.len() != "_mcp_request_id"@.len());
}

/// Reading the document that carries a value gives the value back.
pub proof fn exec_session_info_round_trip(v: ExecSessionInfoView)
    ensures
        ExecSessionInfoView::of(v.json()) == Some(v),
{
    reveal_strlit("exec_id");
    reveal_strlit("cmd");
    reveal_strlit("status");
    reveal_strlit("started_at");
    assert("exec_id"@.len() != "cmd"@.len());
    assert("exec_id"@.len() != "status"@.len());
    assert("exec_id"@.len() != "started_at"@.len());
    assert("cmd"@.len() != "status"@.len());
    assert("cmd"@.len() != "started_at"@.len());
    assert("status"@.len() != "started_at"@.len());
}

/// Reading the document that carries a value gives the value back.
pub proof fn error_payload_round_trip(v: ErrorView)
    ensures
        ErrorView::of(v.json()) == Some(v),
{
    reveal_strlit("code");
    reveal_strlit("message");
    assert("code"@.len() != "message"@.len());
}

/// Reading the document that carries a value gives the value back.
pub proof fn terminal_input_payload_round_trip(v: TerminalInputView)
    ensures
        TerminalInputView::of(v.json()) == Some(v),
{
    reveal_strlit("data");
    reveal_strlit("tab_id");
    assert("data"@.len() != "tab_id"@.len());
}

/// Reading the document that carries a value gives the value back.
pub proof fn terminal_resize_payload_round_trip(v: TerminalResizeView)
    ensures
        TerminalResizeView::of(v.json()) == Some(v),
{
    reveal_strlit("cols");
    reveal_strlit("rows");
    reveal_strlit("tab_id");
    assert("cols"@[0] != "rows"@[0]);
    assert("cols"@.len() != "tab_id"@.len());
    assert("rows"@.len() != "tab_id"@.len());
}

/// Reading the document that carries a value gives the value back.
pub proof fn exec_input_payload_round_trip(v: ExecInputView)
    ensures
        ExecInputView::of(v.json()) == Some(v),
{
    reveal_strlit("exec_id");
    reveal_strlit("data_b64");
    reveal_strlit("_mcp_request_id");
    assert("exec_id"@.len() != "data_b64"@.len());
    assert("exec_id"@.len() != "_mcp_request_id"@.len());
    assert("data_b64"@.len() != "_mcp_request_id"@.len());
}

/// Reading the document that carries a value gives the value back.
pub proof fn exec_close_payload_round_trip(v: ExecCloseView)
    ensures
        ExecCloseView::of(v.json()) == Some(v),
{
    reveal_strlit("exec_id");
    reveal_strlit("_mcp_request_id");
    assert("exec_id"@.len() != "_mcp_request_id"@.len());
}

/// Reading the document that carries a value gives the value back.
pub proof fn exec_list_payload_round_trip(v: ExecListView)
    ensures
        ExecListView::of(v.json()) == Some(v),
{
}

/// Reading the document that carries a value gives the value back.
pub proof fn user_info_round_trip(v: UserInfoView)
    ensures
        UserInfoView::of(v.json()) == Some(v),
{
    reveal_strlit("user_id");
    reveal_strlit("permission");
    reveal_strlit("readwrite");
    reveal_strlit("readonly");
    assert("user_id"@.len() != "permission"@.len());
    assert("readwrite"@.len() != "readonly"@.len());
}

proof fn lemma_read_all_back(entries: Seq<FileEntryView>)
    ensures
        read_all(entries.map_values(|e: FileEntryView| e.json())) == Some(entries),
    decreases entries.len(),
{
    let docs = entries.map_values(|e: FileEntryView| e.json());
    if entries.len() == 0 {
        assert(entries =~= Seq::<FileEntryView>::empty());
    } else {
        lemma_read_all_back(entries.drop_last());
        file_entry_round_trip(entries.last());
        assert(docs.drop_last() =~= entries.drop_last().map_values(|e: FileEntryView| e.json()));
        assert(entries.drop_last().push(entries.last()) =~= entries);
    }
}

} // verus!
