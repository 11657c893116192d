//! The messages that relay, agent and browsers exchange.
use vstd::prelude::*;

use crate::json::{list_names_its_fields, names_view, Json, JsonView};
use crate::text::{str_eq, to_chars};

pub use crate::payload::{
    ErrorPayload, ExecClosePayload, ExecInputPayload, ExecListPayload, ExecResultPayload,
    ExecSessionInfo, ExecStartPayload, FileEntry, FsResultPayload, McpExecPayload,
    McpResultPayload, TerminalInputPayload, TerminalOutputPayload, TerminalResizePayload, UserInfo,
};

verus! {

/// One message on the wire.
#[derive(Debug, PartialEq)]
pub struct Message {
    pub msg_type: String,
    pub session_id: String,
    pub payload: Json,
}

/// What a message says.
pub struct MessageView {
    pub msg_type: Seq<char>,
    pub session_id: Seq<char>,
    pub payload: JsonView,
}

impl View for Message {
    type V = MessageView;

    open spec fn view(&self) -> MessageView {
        MessageView {
            msg_type: self.msg_type@,
            session_id: self.session_id@,
            payload: self.payload@,
        }
    }
}

impl MessageView {
    /// The document that carries the message.
    pub open spec fn json(self) -> JsonView {
        JsonView::object().with_str("type"@, self.msg_type).with_str(
            "session_id"@,
            self.session_id,
        ).with("payload"@, self.payload)
    }

    /// The names of the fields of a message.
    pub open spec fn names() -> Seq<Seq<char>> {
        seq!["type"@, "session_id"@, "payload"@]
    }

    /// The message that a document carries: a record of a text `type`, a text `session_id` and a
    /// `payload`.
    pub open spec fn of(j: JsonView) -> Option<MessageView> {
        match j.record(Self::names()) {
            Some(o) => Self::of_object(o),
            None => None,
        }
    }

    /// The message that an object carries.
    pub open spec fn of_object(j: JsonView) -> Option<MessageView> {
        match (j.str_field("type"@), j.str_field("session_id"@), j.get("payload"@)) {
            (Some(t), Some(s), Some(p)) => Some(
                MessageView { msg_type: t, session_id: s, payload: p },
            ),
            _ => None,
        }
    }
}

/// The message of type `msg_type` in a session.
pub open spec fn message(
    msg_type: Seq<char>,
    session_id: Seq<char>,
    payload: JsonView,
) -> MessageView {
    MessageView { msg_type, session_id, payload }
}

impl Message {
    pub fn new(msg_type: &str, session_id: &str, payload: Json) -> (m: Message)
        ensures
            m@ == message(msg_type@, session_id@, payload@),
    {
        Message { msg_type: msg_type.to_owned(), session_id: session_id.to_owned(), payload }
    }

    /// The document that carries the message.
    pub fn to_json(&self) -> (r: Json)
        ensures
            r@ == self@.json(),
    {
        Json::object().with_str("type", self.msg_type.as_str()).with_str(
            "session_id",
            self.session_id.as_str(),
        ).with("payload", self.payload.copy())
    }

    /// Reads the message that a document carries.
    pub fn from_json(j: &Json) -> (r: Option<Message>)
        ensures
            match r {
                Some(m) => MessageView::of(j@) == Some(m@),
                None => MessageView::of(j@) is None,
            },
    {
        let names = ["type", "session_id", "payload"];
        assert(names_view(names@) =~= MessageView::names());
        match j.listed(&names) {
            Some(o) => Self::from_object(&o),
            None => if j.is_object() {
                Self::from_object(j)
            } else {
                None
            },
        }
    }

    fn from_object(j: &Json) -> (r: Option<Message>)
        ensures
            match r {
                Some(m) => MessageView::of_object(j@) == Some(m@),
                None => MessageView::of_object(j@) is None,
            },
    {
        let t = match j.str_field("type") {
            Some(t) => t,
            None => {
                return None;
            },
        };
        let s = match j.str_field("session_id") {
            Some(s) => s,
            None => {
                return None;
            },
        };
        match j.get("payload") {
            Some(p) => Some(Message::new(t, s, p.copy())),
            None => None,
        }
    }
}

/// Reading a written message gives the message back.
pub proof fn message_round_trip(m: MessageView)
    ensures
        MessageView::of(m.json()) == Some(m),
{
    reveal_strlit("type");
    reveal_strlit("session_id");
    reveal_strlit("payload");
    assert("type"@.len() != "session_id"@.len());
    assert("type"@.len() != "payload"@.len());
    assert("session_id"@.len() != "payload"@.len());
}

/// A message is also read from the list of its fields.
pub proof fn message_reads_as_list(m: MessageView)
    ensures
        MessageView::of(
            JsonView::Arr(
                seq![JsonView::Str(m.msg_type), JsonView::Str(m.session_id), m.payload],
            ),
        ) == Some(m),
{
    let items = seq![JsonView::Str(m.msg_type), JsonView::Str(m.session_id), m.payload];
    let names = MessageView::names();
    reveal_strlit("type");
    reveal_strlit("session_id");
    reveal_strlit("payload");
    assert("type"@.len() != "session_id"@.len());
    assert("type"@.len() != "payload"@.len());
    assert("session_id"@.len() != "payload"@.len());
    assert(names.no_duplicates());
    list_names_its_fields(names, items, 0);
    list_names_its_fields(names, items, 1);
    list_names_its_fields(names, items, 2);
}

/// What a token allows its holder.
#[derive(Debug, Clone, Copy, PartialEq, Eq, Hash, Structural)]
pub enum Permission {
    ReadWrite,
    ReadOnly,
}

impl View for Permission {
    type V = Permission;

    open spec fn view(&self) -> Permission {
        *self
    }
}

/// Which tokens an agent asks for.
#[derive(Debug, Clone, Copy, PartialEq, Eq, Hash, Structural)]
pub enum TokenType {
    Rw,
    Ro,
    Both,
}

impl TokenType {
    /// The name of a token type.
    pub open spec fn name(self) -> Seq<char> {
        match self {
            TokenType::Rw => "rw"@,
            TokenType::Ro => "ro"@,
            TokenType::Both => "both"@,
        }
    }

    /// The token type of a name.
    pub open spec fn named(s: Seq<char>) -> Option<TokenType> {
        if s == "rw"@ {
            Some(TokenType::Rw)
        } else if s == "ro"@ {
            Some(TokenType::Ro)
        } else if s == "both"@ {
            Some(TokenType::Both)
        } else {
            None
        }
    }

    pub fn as_str(&self) -> (r: &str)
        ensures
            r@ == self.name(),
    {
        match self {
            TokenType::Rw => "rw",
            TokenType::Ro => "ro",
            TokenType::Both => "both",
        }
    }

    pub fn from_str_val(s: &str) -> (r: Option<Self>)
        ensures
            r == TokenType::named(s@),
    {
        if str_eq(s, "rw") {
            Some(TokenType::Rw)
        } else if str_eq(s, "ro") {
            Some(TokenType::Ro)
        } else if str_eq(s, "both") {
            Some(TokenType::Both)
        } else {
            None
        }
    }
}

/// A token type is read back from its name, and no other name is read as it.
pub proof fn token_type_names(t: TokenType, s: Seq<char>)
    ensures
        TokenType::named(t.name()) == Some(t),
        TokenType::named(s) == Some(t) ==> s == t.name(),
{
    reveal_strlit("rw");
    reveal_strlit("ro");
    reveal_strlit("both");
    assert("rw"@[1] != "ro"@[1]);
    assert("rw"@.len() != "both"@.len());
    assert("ro"@.len() != "both"@.len());
}

/// The message types that a read-only token may send: listings, reads and results.
pub open spec fn read_only_type(t: Seq<char>) -> bool {
    ||| t == "terminal:output"@
    ||| t == "session:users"@
    ||| t == "session:tab_list"@
    ||| t == "fs:result"@
    ||| t == "fs:list"@
    ||| t == "fs:read"@
    ||| t == "mcp:result"@
    ||| t == "mcp:exec_result"@
    ||| t == "mcp:exec_list"@
}

/// Whether a message type needs a read-write token. Every type that is not known to be read-only
/// does.
pub fn requires_write(msg_type: &str) -> (r: bool)
    ensures
        r == !read_only_type(msg_type@),
{
    !(str_eq(msg_type, "terminal:output") || str_eq(msg_type, "session:users") || str_eq(
        msg_type,
        "session:tab_list",
    ) || str_eq(msg_type, "fs:result") || str_eq(msg_type, "fs:list") || str_eq(msg_type, "fs:read")
        || str_eq(msg_type, "mcp:result") || str_eq(msg_type, "mcp:exec_result") || str_eq(
        msg_type,
        "mcp:exec_list",
    ))
}

/// A letter or digit of ASCII.
pub open spec fn is_alphanumeric(c: char) -> bool {
    'a' <= c <= 'z' || 'A' <= c <= 'Z' || '0' <= c <= '9'
}

/// A session id that an agent may ask for: five to twenty ASCII letters and digits.
pub open spec fn valid_custom_id(s: Seq<char>) -> bool {
    &&& 5 <= s.len() <= 20
    &&& forall|i: int| 0 <= i < s.len() ==> is_alphanumeric(#[trigger] s[i])
}

pub fn is_valid_custom_session_id(id: &str) -> (r: bool)
    ensures
        r == valid_custom_id(id@),
{
    let v = to_chars(id);
    if v.len() < 5 || v.len() > 20 {
        return false;
    }
    let mut i: usize = 0;
    while i < v.len()
        invariant
            i <= v.len(),
            v@ == id@,
            forall|j: int| 0 <= j < i ==> is_alphanumeric(#[trigger] id@[j]),
        decreases v.len() - i,
    {
        let c = v[i];
        if !(('a' <= c && c <= 'z') || ('A' <= c && c <= 'Z') || ('0' <= c && c <= '9')) {
            assert(!is_alphanumeric(id@[i as int]));
            return false;
        }
        i = i + 1;
    }
    true
}

} // verus!
