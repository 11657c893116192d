//! What an agent does with its tabs.
use vstd::prelude::*;

use crate::agent::session::{AgentActionView, AgentView, TabView, Tabs};
use crate::json::JsonView;
use crate::outside::{base64_bytes, base64_text};
use crate::proto::MessageView;
use crate::strmap::{
    has_key, lemma_drop_key_at, lemma_drop_key_none, lemma_lookup_has_key, lookup,
};
use crate::text::decimal;

verus! {

proof fn lemma_has_key_at(tabs: Tabs, k: int)
    requires
        0 <= k < tabs.len(),
    ensures
        has_key(tabs, tabs[k].0),
{
}

proof fn lemma_no_op(t: Seq<char>, p: JsonView)
    requires
        t == "terminal:input"@ || t == "terminal:resize"@ || t == "session:tab_create"@ || t
            == "session:tab_close"@ || t == "session:tab_switch"@ || t == "session:join"@ || t
            == "session:leave"@,
    ensures
        crate::agent::session::fs_op(t, p) is None,
        crate::agent::session::exec_action(t, p) is None,
{
    reveal_strlit("terminal:input");
    reveal_strlit("terminal:resize");
    reveal_strlit("session:tab_create");
    reveal_strlit("session:tab_close");
    reveal_strlit("session:tab_switch");
    reveal_strlit("session:join");
    reveal_strlit("session:leave");
    assert("terminal:input"@.len() != "terminal:resize"@.len());
    assert("terminal:input"@.len() != "session:tab_create"@.len());
    assert("terminal:input"@.len() != "session:tab_close"@.len());
    assert("terminal:input"@.len() != "session:tab_switch"@.len());
    assert("terminal:input"@.len() != "session:join"@.len());
    assert("terminal:input"@.len() != "session:leave"@.len());
    assert("terminal:resize"@.len() != "session:tab_create"@.len());
    assert("terminal:resize"@.len() != "session:tab_close"@.len());
    assert("terminal:resize"@.len() != "session:tab_switch"@.len());
    assert("terminal:resize"@.len() != "session:join"@.len());
    assert("terminal:resize"@.len() != "session:leave"@.len());
    assert("session:tab_create"@.len() != "session:tab_close"@.len());
    assert("session:tab_create"@[12] != "session:tab_switch"@[12]);
    assert("session:tab_create"@.len() != "session:join"@.len());
    assert("session:tab_create"@.len() != "session:leave"@.len());
    assert("session:tab_close"@.len() != "session:tab_switch"@.len());
    assert("session:tab_close"@.len() != "session:join"@.len());
    assert("session:tab_close"@.len() != "session:leave"@.len());
    assert("session:tab_switch"@.len() != "session:join"@.len());
    assert("session:tab_switch"@.len() != "session:leave"@.len());
    assert("session:join"@.len() != "session:leave"@.len());
    reveal_strlit("fs:list");
    reveal_strlit("fs:read");
    reveal_strlit("fs:write");
    reveal_strlit("fs:upload");
    reveal_strlit("fs:delete");
    reveal_strlit("fs:rename");
    reveal_strlit("fs:mkdir");
    assert("fs:list"@[3] != "fs:read"@[3]);
    assert("fs:list"@.len() != "fs:write"@.len());
    assert("fs:list"@.len() != "fs:upload"@.len());
    assert("fs:list"@.len() != "fs:delete"@.len());
    assert("fs:list"@.len() != "fs:rename"@.len());
    assert("fs:list"@.len() != "fs:mkdir"@.len());
    assert("fs:read"@.len() != "fs:write"@.len());
    assert("fs:read"@.len() != "fs:upload"@.len());
    assert("fs:read"@.len() != "fs:delete"@.len());
    assert("fs:read"@.len() != "fs:rename"@.len());
    assert("fs:read"@.len() != "fs:mkdir"@.len());
    assert("fs:write"@.len() != "fs:upload"@.len());
    assert("fs:write"@.len() != "fs:delete"@.len());
    assert("fs:write"@.len() != "fs:rename"@.len());
    assert("fs:write"@[3] != "fs:mkdir"@[3]);
    assert("fs:upload"@[3] != "fs:delete"@[3]);
    assert("fs:upload"@[3] != "fs:rename"@[3]);
    assert("fs:upload"@.len() != "fs:mkdir"@.len());
    assert("fs:delete"@[3] != "fs:rename"@[3]);
    assert("fs:delete"@.len() != "fs:mkdir"@.len());
    assert("fs:rename"@.len() != "fs:mkdir"@.len());
    reveal_strlit("mcp:exec");
    reveal_strlit("mcp:exec_start");
    reveal_strlit("mcp:exec_input");
    reveal_strlit("mcp:exec_close");
    reveal_strlit("mcp:exec_list");
    assert("mcp:exec"@.len() != "mcp:exec_start"@.len());
    assert("mcp:exec"@.len() != "mcp:exec_input"@.len());
    assert("mcp:exec"@.len() != "mcp:exec_close"@.len());
    assert("mcp:exec"@.len() != "mcp:exec_list"@.len());
    assert("mcp:exec_start"@[9] != "mcp:exec_input"@[9]);
    assert("mcp:exec_start"@[9] != "mcp:exec_close"@[9]);
    assert("mcp:exec_start"@.len() != "mcp:exec_list"@.len());
    assert("mcp:exec_input"@[9] != "mcp:exec_close"@[9]);
    assert("mcp:exec_input"@.len() != "mcp:exec_list"@.len());
    assert("mcp:exec_close"@.len() != "mcp:exec_list"@.len());
    assert(t[0] == 't' || t[0] == 's');
    assert("fs:list"@[0] == 'f' && "mcp:exec"@[0] == 'm');
}

/// What is typed goes to the tab that the message names: its bytes, all of them, and to no other
/// tab. Where the message names a tab that is not there, nothing is typed; only where it names none
/// does the active tab get it.
pub proof fn input_goes_to_its_tab(
    v: AgentView,
    m: MessageView,
    fresh: Seq<char>,
    text: Seq<char>,
    data: Seq<u8>,
    k: int,
)
    requires
        !v.read_only,
        m.msg_type == "terminal:input"@,
        m.payload.str_field("data"@) == Some(text),
        base64_bytes(text) == Some(data),
    ensures
        ({
            let (w, actions) = v.handle(m, fresh);
            &&& w == v
            &&& 0 <= k < v.tabs.len() && m.payload.str_field("tab_id"@) == Some(v.tabs[k].0)
                ==> actions == seq![AgentActionView::Input { tab_id: v.tabs[k].0, data }]
            &&& 0 <= k < v.tabs.len() && m.payload.str_field("tab_id"@) is None && v.active
                == v.tabs[k].0 ==> actions == seq![
                AgentActionView::Input { tab_id: v.active, data },
            ]
            &&& m.payload.str_field("tab_id"@) is Some && (forall|j: int|
                0 <= j < v.tabs.len() ==> Some((#[trigger] v.tabs[j]).0) != m.payload.str_field(
                    "tab_id"@,
                )) ==> actions.len() == 0
        }),
{
    lemma_no_op(m.msg_type, m.payload);
    if 0 <= k < v.tabs.len() {
        lemma_has_key_at(v.tabs, k);
    }
}

/// Input that is no base64 types nothing.
pub proof fn bad_input_types_nothing(v: AgentView, m: MessageView, fresh: Seq<char>, text: Seq<char>)
    requires
        !v.read_only,
        m.msg_type == "terminal:input"@,
        m.payload.str_field("data"@) == Some(text),
        base64_bytes(text) is None,
    ensures
        v.handle(m, fresh).0 == v,
        v.handle(m, fresh).1.len() == 0,
{
    lemma_no_op(m.msg_type, m.payload);
}

/// A terminal gets the size that a message says, in the tab that the message names or else in the
/// active one. A side that is not said is 80 columns or 24 rows.
pub proof fn resize_goes_to_its_tab(v: AgentView, m: MessageView, fresh: Seq<char>, k: int)
    requires
        !v.read_only,
        m.msg_type == "terminal:resize"@,
        0 <= k < v.tabs.len(),
        m.payload.str_field("tab_id"@) == Some(v.tabs[k].0) || m.payload.str_field("tab_id"@)
            is None && v.active == v.tabs[k].0,
    ensures
        ({
            let (w, actions) = v.handle(m, fresh);
            &&& w == v
            &&& actions.len() == 1
            &&& actions[0] matches AgentActionView::Resize { tab_id, cols, rows } && {
                &&& tab_id == v.tabs[k].0
                &&& m.payload.u64_field("cols"@) is None ==> cols == 80
                &&& m.payload.u64_field("rows"@) is None ==> rows == 24
                &&& m.payload.u64_field("cols"@) matches Some(c) ==> c <= 65535 ==> cols == c
                &&& m.payload.u64_field("rows"@) matches Some(r) ==> r <= 65535 ==> rows == r
            }
        }),
{
    lemma_no_op(m.msg_type, m.payload);
    lemma_has_key_at(v.tabs, k);
    reveal_strlit("terminal:input");
    reveal_strlit("terminal:resize");
    assert("terminal:input"@.len() != "terminal:resize"@.len());
}

/// A terminal of a tab that is not there is not resized. A side that is too large is taken modulo
/// 65536.
pub proof fn resize_needs_the_tab(v: AgentView, m: MessageView, fresh: Seq<char>, c: u64, k: int)
    requires
        !v.read_only,
        m.msg_type == "terminal:resize"@,
    ensures
        m.payload.str_field("tab_id"@) is Some && (forall|j: int|
            0 <= j < v.tabs.len() ==> Some((#[trigger] v.tabs[j]).0) != m.payload.str_field(
                "tab_id"@,
            )) ==> v.handle(m, fresh).0 == v && v.handle(m, fresh).1.len() == 0,
        0 <= k < v.tabs.len() && m.payload.str_field("tab_id"@) == Some(v.tabs[k].0)
            && m.payload.u64_field("cols"@) == Some(c) && m.payload.u64_field("rows"@) == Some(c)
            ==> v.handle(m, fresh).1 == seq![
            AgentActionView::Resize {
                tab_id: v.tabs[k].0,
                cols: (c % 65536) as u16,
                rows: (c % 65536) as u16,
            },
        ],
{
    lemma_no_op(m.msg_type, m.payload);
    if 0 <= k < v.tabs.len() {
        lemma_has_key_at(v.tabs, k);
    }
    reveal_strlit("terminal:input");
    reveal_strlit("terminal:resize");
    assert("terminal:input"@.len() != "terminal:resize"@.len());
}

/// A new tab is opened under the id drawn for it, with the next number in its title, for the user
/// who asked. The other tabs stay, and so does the active one until the shell runs.
pub proof fn new_tab_is_numbered(v: AgentView, m: MessageView, fresh: Seq<char>)
    requires
        !v.read_only,
        m.msg_type == "session:tab_create"@,
        v.counter < u32::MAX,
    ensures
        ({
            let (w, actions) = v.handle(m, fresh);
            &&& w.counter == v.counter + 1
            &&& w.tabs == v.tabs && w.active == v.active && w.session_id == v.session_id
                && w.read_only == v.read_only
            &&& actions == seq![
                AgentActionView::OpenTab {
                    tab_id: fresh,
                    title: "Shell "@ + decimal((v.counter + 1) as nat),
                    user: m.payload.str_field("_user_id"@),
                },
            ]
        }),
{
    lemma_no_op(m.msg_type, m.payload);
    reveal_strlit("session:tab_create");
    reveal_strlit("terminal:input");
    reveal_strlit("terminal:resize");
    assert("session:tab_create"@.len() != "terminal:input"@.len());
    assert("session:tab_create"@.len() != "terminal:resize"@.len());
}

/// A tab whose shell runs is the last of the tabs, empty, with its title, and the active one.
pub proof fn opened_tab_is_active(v: AgentView, id: Seq<char>, title: Seq<char>)
    requires
        forall|j: int| 0 <= j < v.tabs.len() ==> (#[trigger] v.tabs[j]).0 != id,
    ensures
        ({
            let w = v.opened(id, title);
            &&& w.tabs == v.tabs.push((id, TabView { title, output: Seq::empty() }))
            &&& w.active == id
            &&& w.session_id == v.session_id && w.read_only == v.read_only && w.counter
                == v.counter
        }),
{
    assert(!has_key(v.tabs, id));
}

/// How the list names a tab.
pub open spec fn tab_entry(id: Seq<char>, title: Seq<char>, active: bool) -> JsonView {
    JsonView::Obj(
        Map::<Seq<char>, JsonView>::empty().insert("tab_id"@, JsonView::Str(id)).insert(
            "title"@,
            JsonView::Str(title),
        ).insert("active"@, JsonView::Bool(active)),
    )
}

/// Whether a message is the list of the tabs of an agent, in their order, each with its title and
/// whether it is the active one; for one user, or for all.
pub open spec fn lists_tabs(a: AgentActionView, v: AgentView, user: Option<Seq<char>>) -> bool {
    a matches AgentActionView::Send(m) && {
        &&& m.msg_type == "session:tab_list"@
        &&& m.session_id == v.session_id
        &&& m.payload.str_field("_target_user_id"@) == user
        &&& m.payload.get("_mcp_request_id"@) is None
        &&& m.payload.get("tabs"@) matches Some(JsonView::Arr(items)) && {
            &&& items.len() == v.tabs.len()
            &&& forall|i: int|
                0 <= i < items.len() ==> #[trigger] items[i] == tab_entry(
                    v.tabs[i].0,
                    v.tabs[i].1.title,
                    v.tabs[i].0 == v.active,
                )
        }
    }
}

/// Whether a message says that a tab is switched to; for one user, or for all.
pub open spec fn says_switched(
    a: AgentActionView,
    sid: Seq<char>,
    tab: Seq<char>,
    user: Option<Seq<char>>,
) -> bool {
    a matches AgentActionView::Send(m) && {
        &&& m.msg_type == "session:tab_switched"@
        &&& m.session_id == sid
        &&& m.payload.str_field("tab_id"@) == Some(tab)
        &&& m.payload.str_field("_target_user_id"@) == user
        &&& m.payload.get("_mcp_request_id"@) is None
    }
}

/// Whether a message carries the output of a tab; for one user, or for all.
pub open spec fn says_output(
    a: AgentActionView,
    sid: Seq<char>,
    tab: Seq<char>,
    data: Seq<u8>,
    user: Option<Seq<char>>,
) -> bool {
    a matches AgentActionView::Send(m) && {
        &&& m.msg_type == "terminal:output"@
        &&& m.session_id == sid
        &&& m.payload.str_field("tab_id"@) == Some(tab)
        &&& m.payload.str_field("data"@) == Some(base64_text(data))
        &&& m.payload.str_field("_target_user_id"@) == user
        &&& m.payload.get("_mcp_request_id"@) is None
    }
}

proof fn lemma_list(v: AgentView, user: Option<Seq<char>>)
    ensures
        lists_tabs(v.list(user), v, user),
        says_switched(v.switched(user), v.session_id, v.active, user),
{
    reveal_strlit("tabs");
    reveal_strlit("tab_id");
    reveal_strlit("_target_user_id");
    reveal_strlit("_mcp_request_id");
    assert("tabs"@.len() != "tab_id"@.len());
    assert("tabs"@.len() != "_target_user_id"@.len());
    assert("tabs"@.len() != "_mcp_request_id"@.len());
    assert("tab_id"@.len() != "_target_user_id"@.len());
    assert("tab_id"@.len() != "_mcp_request_id"@.len());
    assert("_target_user_id"@[1] != "_mcp_request_id"@[1]);
}

proof fn lemma_output(sid: Seq<char>, tab: Seq<char>, data: Seq<u8>, user: Option<Seq<char>>)
    ensures
        says_output(
            AgentActionView::Send(crate::agent::session::output_message(sid, tab, data, user)),
            sid,
            tab,
            data,
            user,
        ),
{
    reveal_strlit("data");
    reveal_strlit("tab_id");
    reveal_strlit("_target_user_id");
    reveal_strlit("_mcp_request_id");
    assert("data"@.len() != "tab_id"@.len());
    assert("data"@.len() != "_target_user_id"@.len());
    assert("data"@.len() != "_mcp_request_id"@.len());
    assert("tab_id"@.len() != "_target_user_id"@.len());
    assert("tab_id"@.len() != "_mcp_request_id"@.len());
    assert("_target_user_id"@[1] != "_mcp_request_id"@[1]);
}

/// A session begins with one tab, named `Shell 1`, which is active. It takes no messages that
/// change something exactly where its tokens are read-only. It greets all with its tabs and the
/// active one.
pub proof fn session_begins(sid: Seq<char>, token_type: Seq<char>, tab: Seq<char>)
    ensures
        ({
            let v = AgentView::first(sid, token_type, tab);
            &&& v.session_id == sid
            &&& v.read_only == (token_type == "ro"@)
            &&& v.tabs == seq![
                (tab, TabView { title: "Shell "@ + decimal(1), output: Seq::empty() }),
            ]
            &&& v.active == tab
            &&& v.counter == 1
        }),
{
}

/// Tabs are announced as a list for all, then as a switch for the user who asked.
pub proof fn tabs_are_announced(v: AgentView, user: Option<Seq<char>>)
    ensures
        v.announced(user).len() == 2,
        lists_tabs(v.announced(user)[0], v, None),
        says_switched(v.announced(user)[1], v.session_id, v.active, user),
{
    lemma_list(v, None);
    lemma_list(v, user);
}

/// A tab that is closed is gone, with its shell, and the others stay in their order. The active tab
/// stays active; where it was closed, the first that is left is active. All see the tabs that are
/// left; the user who asked is switched. The last tab is never closed.
pub proof fn closed_tab_is_gone(v: AgentView, m: MessageView, fresh: Seq<char>, k: int)
    requires
        !v.read_only,
        m.msg_type == "session:tab_close"@,
        0 <= k < v.tabs.len(),
        v.tabs[k].0.len() > 0,
        m.payload.str_field("tab_id"@) == Some(v.tabs[k].0),
        crate::agent::session::distinct(v.tabs),
    ensures
        ({
            let (w, actions) = v.handle(m, fresh);
            let id = v.tabs[k].0;
            &&& v.tabs.len() == 1 ==> w == v && actions.len() == 0
            &&& v.tabs.len() > 1 ==> {
                &&& w.tabs == v.tabs.remove(k)
                &&& v.active != id ==> w.active == v.active
                &&& v.active == id ==> w.active == w.tabs[0].0
                &&& w.counter == v.counter && w.read_only == v.read_only && w.session_id
                    == v.session_id
                &&& actions.len() == 3
                &&& actions[0] == (AgentActionView::CloseTab { tab_id: id })
                &&& lists_tabs(actions[1], w, None)
                &&& says_switched(
                    actions[2],
                    w.session_id,
                    w.active,
                    m.payload.str_field("_user_id"@),
                )
            }
        }),
{
    lemma_no_op(m.msg_type, m.payload);
    reveal_strlit("session:tab_close");
    reveal_strlit("terminal:input");
    reveal_strlit("terminal:resize");
    reveal_strlit("session:tab_create");
    assert("session:tab_close"@.len() != "terminal:input"@.len());
    assert("session:tab_close"@.len() != "terminal:resize"@.len());
    assert("session:tab_close"@.len() != "session:tab_create"@.len());
    lemma_drop_key_at(v.tabs, k);
    let w = v.closed(v.tabs[k].0);
    lemma_list(w, None);
    lemma_list(w, m.payload.str_field("_user_id"@));
}

/// Closing names a tab: a message that names none does nothing, and one that names a tab that is
/// not there closes none.
pub proof fn closing_names_a_tab(v: AgentView, m: MessageView, fresh: Seq<char>)
    requires
        !v.read_only,
        m.msg_type == "session:tab_close"@,
    ensures
        m.payload.str_field("tab_id"@) is None || m.payload.str_field("tab_id"@) == Some(
            Seq::<char>::empty(),
        ) ==> v.handle(m, fresh).0 == v && v.handle(m, fresh).1.len() == 0,
        m.payload.str_field("tab_id"@) is Some && (forall|j: int|
            0 <= j < v.tabs.len() ==> Some((#[trigger] v.tabs[j]).0) != m.payload.str_field(
                "tab_id"@,
            )) ==> v.handle(m, fresh).0.tabs == v.tabs,
{
    lemma_no_op(m.msg_type, m.payload);
    reveal_strlit("");
    reveal_strlit("session:tab_close");
    reveal_strlit("terminal:input");
    reveal_strlit("terminal:resize");
    reveal_strlit("session:tab_create");
    assert("session:tab_close"@.len() != "terminal:input"@.len());
    assert("session:tab_close"@.len() != "terminal:resize"@.len());
    assert("session:tab_close"@.len() != "session:tab_create"@.len());
    if m.payload.str_field("tab_id"@) is Some {
        let id = m.payload.str_field("tab_id"@)->0;
        if forall|j: int| 0 <= j < v.tabs.len() ==> Some((#[trigger] v.tabs[j]).0) != Some(id) {
            lemma_drop_key_none(v.tabs, id);
        }
    }
}

proof fn lemma_lookup_at(tabs: Tabs, k: int)
    requires
        0 <= k < tabs.len(),
        crate::agent::session::distinct(tabs),
    ensures
        lookup(tabs, tabs[k].0) == Some(tabs[k].1),
    decreases tabs.len(),
{
    if k < tabs.len() - 1 {
        let init = tabs.drop_last();
        assert(crate::agent::session::distinct(init)) by {
            assert forall|x: int, y: int|
                0 <= x < init.len() && 0 <= y < init.len() && x != y implies (
            #[trigger] init[x]).0 != (#[trigger] init[y]).0 by {
                assert(tabs[x].0 != tabs[y].0);
            }
        }
        assert(init[k] == tabs[k]);
        assert(tabs[k].0 != tabs[tabs.len() - 1].0);
        lemma_lookup_at(init, k);
    }
}

/// A tab that is switched to is the active one. The user who asked hears of it and is shown what
/// the tab wrote last; nothing else changes.
pub proof fn switch_shows_the_tab(v: AgentView, m: MessageView, fresh: Seq<char>, k: int)
    requires
        !v.read_only,
        m.msg_type == "session:tab_switch"@,
        0 <= k < v.tabs.len(),
        m.payload.str_field("tab_id"@) == Some(v.tabs[k].0),
        crate::agent::session::distinct(v.tabs),
    ensures
        ({
            let (w, actions) = v.handle(m, fresh);
            let (id, tab) = v.tabs[k];
            let user = m.payload.str_field("_user_id"@);
            &&& w.active == id
            &&& w.tabs == v.tabs && w.counter == v.counter && w.read_only == v.read_only
                && w.session_id == v.session_id
            &&& actions.len() == if tab.output.len() == 0 {
                1nat
            } else {
                2
            }
            &&& says_switched(actions[0], v.session_id, id, user)
            &&& tab.output.len() > 0 ==> says_output(
                actions[1],
                v.session_id,
                id,
                tab.output,
                user,
            )
        }),
{
    lemma_no_op(m.msg_type, m.payload);
    reveal_strlit("session:tab_switch");
    reveal_strlit("terminal:input");
    reveal_strlit("terminal:resize");
    reveal_strlit("session:tab_create");
    reveal_strlit("session:tab_close");
    assert("session:tab_switch"@.len() != "terminal:input"@.len());
    assert("session:tab_switch"@.len() != "terminal:resize"@.len());
    assert("session:tab_switch"@[12] != "session:tab_create"@[12]);
    assert("session:tab_switch"@.len() != "session:tab_close"@.len());
    lemma_lookup_at(v.tabs, k);
    let user = m.payload.str_field("_user_id"@);
    let w = AgentView { active: v.tabs[k].0, ..v };
    lemma_list(w, user);
    lemma_output(v.session_id, v.tabs[k].0, v.tabs[k].1.output, user);
}

/// A tab that is not there is not switched to.
pub proof fn switch_needs_the_tab(v: AgentView, m: MessageView, fresh: Seq<char>, id: Seq<char>)
    requires
        !v.read_only,
        m.msg_type == "session:tab_switch"@,
        m.payload.str_field("tab_id"@) == Some(id),
        forall|j: int| 0 <= j < v.tabs.len() ==> (#[trigger] v.tabs[j]).0 != id,
    ensures
        v.handle(m, fresh).0 == v,
        v.handle(m, fresh).1.len() == 0,
{
    lemma_no_op(m.msg_type, m.payload);
    reveal_strlit("session:tab_switch");
    reveal_strlit("terminal:input");
    reveal_strlit("terminal:resize");
    reveal_strlit("session:tab_create");
    reveal_strlit("session:tab_close");
    assert("session:tab_switch"@.len() != "terminal:input"@.len());
    assert("session:tab_switch"@.len() != "terminal:resize"@.len());
    assert("session:tab_switch"@[12] != "session:tab_create"@[12]);
    assert("session:tab_switch"@.len() != "session:tab_close"@.len());
    assert(!has_key(v.tabs, id));
    lemma_lookup_has_key(v.tabs, id);
}

/// A user who joins is shown the tabs first and the active one last, and in between what each tab
/// that wrote something wrote last.
pub proof fn joining_shows_everything(v: AgentView, m: MessageView, fresh: Seq<char>, k: int)
    requires
        !v.read_only,
        m.msg_type == "session:join"@,
        0 <= k < v.tabs.len(),
        v.tabs[k].1.output.len() > 0,
    ensures
        ({
            let (w, actions) = v.handle(m, fresh);
            let user = m.payload.str_field("user_id"@);
            let n = actions.len();
            &&& w == v
            &&& n >= 3
            &&& lists_tabs(actions[0], v, user)
            &&& says_switched(actions[n - 1], v.session_id, v.active, user)
            &&& exists|i: int|
                0 < i < n - 1 && says_output(
                    #[trigger] actions[i],
                    v.session_id,
                    v.tabs[k].0,
                    v.tabs[k].1.output,
                    user,
                )
        }),
{
    lemma_no_op(m.msg_type, m.payload);
    reveal_strlit("session:join");
    reveal_strlit("terminal:input");
    reveal_strlit("terminal:resize");
    reveal_strlit("session:tab_create");
    reveal_strlit("session:tab_close");
    reveal_strlit("session:tab_switch");
    assert("session:join"@.len() != "terminal:input"@.len());
    assert("session:join"@.len() != "terminal:resize"@.len());
    assert("session:join"@.len() != "session:tab_create"@.len());
    assert("session:join"@.len() != "session:tab_close"@.len());
    assert("session:join"@.len() != "session:tab_switch"@.len());
    let user = m.payload.str_field("user_id"@);
    lemma_list(v, user);
    let r = crate::agent::session::replays(v.session_id, v.tabs, user);
    lemma_replayed(v.session_id, v.tabs, user, k);
    let i = choose|i: int|
        0 <= i < r.len() && says_output(
            #[trigger] r[i],
            v.session_id,
            v.tabs[k].0,
            v.tabs[k].1.output,
            user,
        );
    let actions = v.handle(m, fresh).1;
    assert(actions[i + 1] == r[i]);
}

/// A user who joins is shown each tab that wrote something once, and nothing else in between.
pub proof fn joining_shows_each_tab_once(v: AgentView, m: MessageView, fresh: Seq<char>)
    requires
        !v.read_only,
        m.msg_type == "session:join"@,
    ensures
        v.handle(m, fresh).1.len() == 2 + v.tabs.filter(
            |t: (Seq<char>, TabView)| t.1.output.len() > 0,
        ).len(),
{
    lemma_no_op(m.msg_type, m.payload);
    reveal_strlit("session:join");
    reveal_strlit("terminal:input");
    reveal_strlit("terminal:resize");
    reveal_strlit("session:tab_create");
    reveal_strlit("session:tab_close");
    reveal_strlit("session:tab_switch");
    assert("session:join"@.len() != "terminal:input"@.len());
    assert("session:join"@.len() != "terminal:resize"@.len());
    assert("session:join"@.len() != "session:tab_create"@.len());
    assert("session:join"@.len() != "session:tab_close"@.len());
    assert("session:join"@.len() != "session:tab_switch"@.len());
    lemma_replay_count(v.session_id, v.tabs, m.payload.str_field("user_id"@));
}

proof fn lemma_replay_count(sid: Seq<char>, tabs: Tabs, user: Option<Seq<char>>)
    ensures
        crate::agent::session::replays(sid, tabs, user).len() == tabs.filter(
            |t: (Seq<char>, TabView)| t.1.output.len() > 0,
        ).len(),
    decreases tabs.len(),
{
    reveal(Seq::filter);
    if tabs.len() > 0 {
        lemma_replay_count(sid, tabs.drop_last(), user);
    }
}

proof fn lemma_replayed(sid: Seq<char>, tabs: Tabs, user: Option<Seq<char>>, k: int)
    requires
        0 <= k < tabs.len(),
        tabs[k].1.output.len() > 0,
    ensures
        exists|i: int|
            0 <= i < crate::agent::session::replays(sid, tabs, user).len() && says_output(
                #[trigger] crate::agent::session::replays(sid, tabs, user)[i],
                sid,
                tabs[k].0,
                tabs[k].1.output,
                user,
            ),
    decreases tabs.len(),
{
    let r = crate::agent::session::replays(sid, tabs, user);
    let before = crate::agent::session::replays(sid, tabs.drop_last(), user);
    if k < tabs.len() - 1 {
        assert(tabs.drop_last()[k] == tabs[k]);
        lemma_replayed(sid, tabs.drop_last(), user, k);
        let i = choose|i: int|
            0 <= i < before.len() && says_output(
                #[trigger] before[i],
                sid,
                tabs[k].0,
                tabs[k].1.output,
                user,
            );
        assert(r[i] == before[i]);
    } else {
        lemma_output(sid, tabs[k].0, tabs[k].1.output, user);
        assert(says_output(r[before.len() as int], sid, tabs[k].0, tabs[k].1.output, user));
    }
}

/// Where no tab wrote anything, a user who joins is shown the tabs and the active one, and nothing
/// else.
pub proof fn joining_a_quiet_session(v: AgentView, m: MessageView, fresh: Seq<char>)
    requires
        !v.read_only,
        m.msg_type == "session:join"@,
        forall|k: int| 0 <= k < v.tabs.len() ==> (#[trigger] v.tabs[k]).1.output.len() == 0,
    ensures
        ({
            let (w, actions) = v.handle(m, fresh);
            let user = m.payload.str_field("user_id"@);
            &&& w == v
            &&& actions.len() == 2
            &&& lists_tabs(actions[0], v, user)
            &&& says_switched(actions[1], v.session_id, v.active, user)
        }),
{
    lemma_no_op(m.msg_type, m.payload);
    reveal_strlit("session:join");
    reveal_strlit("terminal:input");
    reveal_strlit("terminal:resize");
    reveal_strlit("session:tab_create");
    reveal_strlit("session:tab_close");
    reveal_strlit("session:tab_switch");
    assert("session:join"@.len() != "terminal:input"@.len());
    assert("session:join"@.len() != "terminal:resize"@.len());
    assert("session:join"@.len() != "session:tab_create"@.len());
    assert("session:join"@.len() != "session:tab_close"@.len());
    assert("session:join"@.len() != "session:tab_switch"@.len());
    let user = m.payload.str_field("user_id"@);
    lemma_list(v, user);
    lemma_nothing_replayed(v.session_id, v.tabs, user);
}

proof fn lemma_nothing_replayed(sid: Seq<char>, tabs: Tabs, user: Option<Seq<char>>)
    requires
        forall|k: int| 0 <= k < tabs.len() ==> (#[trigger] tabs[k]).1.output.len() == 0,
    ensures
        crate::agent::session::replays(sid, tabs, user).len() == 0,
    decreases tabs.len(),
{
    if tabs.len() > 0 {
        let init = tabs.drop_last();
        assert forall|k: int| 0 <= k < init.len() implies (#[trigger] init[k]).1.output.len()
            == 0 by {
            assert(tabs[k].1.output.len() == 0);
        }
        lemma_nothing_replayed(sid, init, user);
        assert(tabs[tabs.len() - 1].1.output.len() == 0);
    }
}

/// What a tab writes is kept for those who come later, in its own tab: all of it up to 65536 bytes,
/// and of more the last 65536. The other tabs stay as they are, and a tab that is not there keeps
/// nothing.
pub proof fn tab_keeps_its_output(v: AgentView, data: Seq<u8>, k: int, j: int, other: Seq<char>)
    requires
        0 <= k < v.tabs.len(),
        0 <= j < v.tabs.len(),
        crate::agent::session::distinct(v.tabs),
        forall|i: int| 0 <= i < v.tabs.len() ==> (#[trigger] v.tabs[i]).0 != other,
    ensures
        ({
            let w = v.wrote(v.tabs[k].0, data);
            let all = v.tabs[k].1.output + data;
            &&& w.tabs.len() == v.tabs.len()
            &&& w.tabs[k].0 == v.tabs[k].0 && w.tabs[k].1.title == v.tabs[k].1.title
            &&& all.len() <= 65536 ==> w.tabs[k].1.output == all
            &&& all.len() > 65536 ==> w.tabs[k].1.output == all.skip(all.len() - 65536)
            &&& j != k ==> w.tabs[j] == v.tabs[j]
            &&& w.active == v.active && w.counter == v.counter && w.session_id == v.session_id
                && w.read_only == v.read_only
        }),
        v.wrote(other, data) == v,
{
    lemma_lookup_at(v.tabs, k);
    lemma_has_key_at(v.tabs, k);
    if j != k {
        assert(v.tabs[j].0 != v.tabs[k].0);
    }
    assert(!has_key(v.tabs, other));
    lemma_lookup_has_key(v.tabs, other);
}

/// A read-only agent answers what would change something with an error, and does nothing.
pub proof fn read_only_agent_says_so(v: AgentView, m: MessageView, fresh: Seq<char>)
    requires
        v.read_only,
        m.msg_type != "terminal:output"@ && m.msg_type != "session:users"@ && m.msg_type
            != "session:tab_list"@ && m.msg_type != "fs:result"@ && m.msg_type != "fs:list"@
            && m.msg_type != "fs:read"@ && m.msg_type != "mcp:result"@ && m.msg_type
            != "mcp:exec_result"@ && m.msg_type != "mcp:exec_list"@,
    ensures
        ({
            let (w, actions) = v.handle(m, fresh);
            &&& w == v
            &&& actions.len() == 1
            &&& actions[0] matches AgentActionView::Send(r) && {
                &&& r.msg_type == "error"@
                &&& r.session_id == v.session_id
                &&& r.payload.str_field("code"@) == Some("PERMISSION_DENIED"@)
                &&& r.payload.str_field("message"@) == Some(
                    "Agent is read-only, write-type messages rejected"@,
                )
            }
        }),
{
    reveal_strlit("code");
    reveal_strlit("message");
    assert("code"@.len() != "message"@.len());
}

/// A message of a type that is not known, and that a user left, does nothing.
pub proof fn unknown_messages_do_nothing(v: AgentView, m: MessageView, fresh: Seq<char>)
    requires
        !v.read_only,
        m.msg_type != "terminal:input"@ && m.msg_type != "terminal:resize"@ && m.msg_type
            != "session:tab_create"@ && m.msg_type != "session:tab_close"@ && m.msg_type
            != "session:tab_switch"@ && m.msg_type != "session:join"@ && m.msg_type != "fs:list"@
            && m.msg_type != "fs:read"@ && m.msg_type != "fs:write"@ && m.msg_type
            != "fs:upload"@ && m.msg_type != "fs:delete"@ && m.msg_type != "fs:rename"@
            && m.msg_type != "fs:mkdir"@ && m.msg_type != "mcp:exec"@ && m.msg_type
            != "mcp:exec_start"@ && m.msg_type != "mcp:exec_input"@ && m.msg_type
            != "mcp:exec_close"@ && m.msg_type != "mcp:exec_list"@,
    ensures
        v.handle(m, fresh).0 == v,
        v.handle(m, fresh).1.len() == 0,
{
}

} // verus!
