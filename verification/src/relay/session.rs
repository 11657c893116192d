//! The sessions that agents hold and the tokens that open them.
use vstd::prelude::*;

use crate::chance::{generate_session_id, generate_token, is_hex};
use crate::proto::{is_valid_custom_session_id, valid_custom_id, Permission};
use crate::seqs::{lemma_filter, lemma_filter_push};
use crate::strmap::StrMap;
use crate::text::{
    copy_opt, copy_texts, lemma_trimmed_idempotent, opt_text, str_eq, texts_view, trim, trimmed,
};

verus! {

/// What is known of one session.
#[derive(Debug, PartialEq)]
pub struct SessionInfo {
    pub tokens: Vec<(String, Permission)>,
    pub fixed_key: Option<String>,
    pub is_temporary: bool,
    /// Labels that an administrator put on the session: trimmed, not empty, each once.
    pub tags: Vec<String>,
}

/// Tokens with their permissions, in order.
pub type Tokens = Seq<(Seq<char>, Permission)>;

pub struct SessionView {
    pub tokens: Tokens,
    pub fixed_key: Option<Seq<char>>,
    pub is_temporary: bool,
    pub tags: Seq<Seq<char>>,
}

pub open spec fn tokens_view(v: Seq<(String, Permission)>) -> Tokens {
    v.map_values(|e: (String, Permission)| (e.0@, e.1))
}

impl View for SessionInfo {
    type V = SessionView;

    open spec fn view(&self) -> SessionView {
        SessionView {
            tokens: tokens_view(self.tokens@),
            fixed_key: opt_text(self.fixed_key),
            is_temporary: self.is_temporary,
            tags: texts_view(self.tags@),
        }
    }
}

pub fn copy_tokens(v: &Vec<(String, Permission)>) -> (r: Vec<(String, Permission)>)
    ensures
        tokens_view(r@) == tokens_view(v@),
        r@.len() == v@.len(),
{
    let mut r: Vec<(String, Permission)> = Vec::new();
    let mut i: usize = 0;
    while i < v.len()
        invariant
            i <= v@.len(),
            r@.len() == i,
            forall|j: int| 0 <= j < i ==> (#[trigger] r@[j]).0@ == v@[j].0@ && r@[j].1 == v@[j].1,
        decreases v@.len() - i,
    {
        r.push((v[i].0.clone(), v[i].1));
        i = i + 1;
    }
    assert(tokens_view(r@) =~= tokens_view(v@));
    r
}

impl SessionInfo {
    pub fn copy(&self) -> (r: SessionInfo)
        ensures
            r@ == self@,
    {
        SessionInfo {
            tokens: copy_tokens(&self.tokens),
            fixed_key: copy_opt(&self.fixed_key),
            is_temporary: self.is_temporary,
            tags: copy_texts(&self.tags),
        }
    }
}

/// Why a session was not registered.
#[derive(Debug, Clone, Copy, PartialEq, Eq, Structural)]
pub enum RegisterError {
    /// Another session holds the id that was asked for.
    IdTaken,
    /// The id that was asked for is not five to twenty ASCII letters and digits.
    InvalidId,
}

/// The sessions by id, and for each token the session and permission it gives.
pub struct SessionRegistry {
    sessions: StrMap<SessionInfo>,
    token_map: StrMap<(String, Permission)>,
}

#[verifier::ext_equal]
pub struct RegistryView {
    pub sessions: Map<Seq<char>, SessionView>,
    pub token_map: Map<Seq<char>, (Seq<char>, Permission)>,
}

/// Whether `t` is one of the tokens.
pub open spec fn lists(toks: Tokens, t: Seq<char>) -> bool {
    exists|i: int| 0 <= i < toks.len() && (#[trigger] toks[i]).0 == t
}

/// The token map after each of `toks` was bound to a session, in order.
pub open spec fn bind_tokens(
    m: Map<Seq<char>, (Seq<char>, Permission)>,
    sid: Seq<char>,
    toks: Tokens,
) -> Map<Seq<char>, (Seq<char>, Permission)>
    decreases toks.len(),
{
    if toks.len() == 0 {
        m
    } else {
        bind_tokens(m, sid, toks.drop_last()).insert(toks.last().0, (sid, toks.last().1))
    }
}

/// The token map without `toks`.
pub open spec fn unbind_tokens(
    m: Map<Seq<char>, (Seq<char>, Permission)>,
    toks: Tokens,
) -> Map<Seq<char>, (Seq<char>, Permission)> {
    Map::new(|t: Seq<char>| m.contains_key(t) && !lists(toks, t), |t: Seq<char>| m[t])
}

/// The values that are drawn at random for one registration.
pub struct FreshIds {
    pub rw_token: String,
    pub ro_token: String,
    pub session_id: String,
}

pub struct FreshView {
    pub rw_token: Seq<char>,
    pub ro_token: Seq<char>,
    pub session_id: Seq<char>,
}

impl View for FreshIds {
    type V = FreshView;

    open spec fn view(&self) -> FreshView {
        FreshView {
            rw_token: self.rw_token@,
            ro_token: self.ro_token@,
            session_id: self.session_id@,
        }
    }
}

impl FreshView {
    /// The form of drawn values: two tokens of 64 hexadecimal digits and an id of 8.
    pub open spec fn drawn(self) -> bool {
        is_hex(self.rw_token, 64) && is_hex(self.ro_token, 64) && is_hex(self.session_id, 8)
    }
}

impl FreshIds {
    pub fn draw() -> (f: FreshIds)
        ensures
            f@.drawn(),
    {
        FreshIds {
            rw_token: generate_token(),
            ro_token: generate_token(),
            session_id: generate_session_id(),
        }
    }
}

/// The tokens of a new session: the fixed key, or else a drawn token, with the permission that
/// `token_type` names, and for `both` a drawn read-only token after it.
pub open spec fn new_tokens(
    fixed_key: Option<Seq<char>>,
    token_type: Seq<char>,
    fresh: FreshView,
) -> Tokens {
    let first = match fixed_key {
        Some(k) => k,
        None => fresh.rw_token,
    };
    if token_type == "both"@ {
        seq![(first, Permission::ReadWrite), (fresh.ro_token, Permission::ReadOnly)]
    } else if token_type == "ro"@ {
        seq![(first, Permission::ReadOnly)]
    } else {
        seq![(first, Permission::ReadWrite)]
    }
}

/// The id of a new session, unless the one that was asked for is not valid.
pub open spec fn new_id(desired: Option<Seq<char>>, fresh: Seq<char>) -> Option<Seq<char>> {
    match desired {
        Some(id) => if valid_custom_id(id) {
            Some(id)
        } else {
            None
        },
        None => Some(fresh),
    }
}

/// The id and the tokens of a registered session, or why there is none.
pub type Registered = Result<(Seq<char>, Tokens), RegisterError>;

pub open spec fn registered_view(
    r: Result<(String, Vec<(String, Permission)>), RegisterError>,
) -> Registered {
    match r {
        Ok((id, toks)) => Ok((id@, tokens_view(toks@))),
        Err(e) => Err(e),
    }
}

/// What a token opens.
pub open spec fn access_view(r: Option<(String, Permission)>) -> Option<(Seq<char>, Permission)> {
    match r {
        Some((id, p)) => Some((id@, p)),
        None => None,
    }
}

pub open spec fn opt_tokens(r: Option<Vec<(String, Permission)>>) -> Option<Tokens> {
    match r {
        Some(toks) => Some(tokens_view(toks@)),
        None => None,
    }
}

/// The permissions of tokens, paired with fresh tokens in their place.
pub open spec fn refreshed(toks: Tokens, fresh: Seq<Seq<char>>) -> Tokens {
    Seq::new(toks.len(), |i: int| (fresh[i], toks[i].1))
}

/// The tokens, with the permission of the first `t` among them set to `p`.
pub open spec fn with_permission(toks: Tokens, t: Seq<char>, p: Permission) -> Tokens {
    Seq::new(
        toks.len(),
        |i: int|
            if toks[i].0 == t && forall|j: int| 0 <= j < i ==> (#[trigger] toks[j]).0 != t {
                (t, p)
            } else {
                toks[i]
            },
    )
}

/// What tags are: texts that are not empty and have no white space at their ends, each once.
pub open spec fn are_labels(tags: Seq<Seq<char>>) -> bool {
    &&& tags.no_duplicates()
    &&& forall|i: int|
        0 <= i < tags.len() ==> (#[trigger] tags[i]).len() > 0 && trimmed(tags[i]) == tags[i]
}

/// The fixed key of a session whose tokens were replaced: the first of them, where it had one.
pub open spec fn renewed_key(key: Option<Seq<char>>, tokens: Tokens) -> Option<Seq<char>> {
    match key {
        Some(_) => Some(tokens[0].0),
        None => None,
    }
}

/// The tokens other than `t`.
pub open spec fn not_token(t: Seq<char>) -> spec_fn((Seq<char>, Permission)) -> bool {
    |e: (Seq<char>, Permission)| e.0 != t
}

/// What differs from `t`.
pub open spec fn other_than(t: Seq<char>) -> spec_fn(Seq<char>) -> bool {
    |x: Seq<char>| x != t
}

impl RegistryView {
    pub open spec fn empty() -> RegistryView {
        RegistryView { sessions: Map::empty(), token_map: Map::empty() }
    }

    /// Every token opens a session that exists and lists it with the same permission.
    pub open spec fn consistent(self) -> bool {
        forall|t: Seq<char>| #[trigger]
            self.token_map.contains_key(t) ==> {
                let (sid, p) = self.token_map[t];
                self.sessions.contains_key(sid) && self.sessions[sid].tokens.contains((t, p))
            }
    }

    /// The tags of every session are labels.
    pub open spec fn tags_valid(self) -> bool {
        forall|sid: Seq<char>| #[trigger]
            self.sessions.contains_key(sid) ==> are_labels(self.sessions[sid].tags)
    }

    /// What holds of every registry.
    pub open spec fn valid(self) -> bool {
        self.consistent() && self.tags_valid()
    }

    /// The session and permission that a token gives.
    pub open spec fn authenticate(self, t: Seq<char>) -> Option<(Seq<char>, Permission)> {
        if self.token_map.contains_key(t) {
            Some(self.token_map[t])
        } else {
            None
        }
    }

    /// Whether a token opens a session.
    pub open spec fn opens(self, t: Seq<char>, sid: Seq<char>) -> bool {
        self.token_map.contains_key(t) && self.token_map[t].0 == sid
    }

    /// The registry with a session in it whose tokens open it.
    pub open spec fn add(self, sid: Seq<char>, s: SessionView) -> RegistryView {
        RegistryView {
            sessions: self.sessions.insert(sid, s),
            token_map: bind_tokens(self.token_map, sid, s.tokens),
        }
    }

    /// The registry without a session and its tokens.
    pub open spec fn remove(self, sid: Seq<char>) -> RegistryView {
        if self.sessions.contains_key(sid) {
            RegistryView {
                sessions: self.sessions.remove(sid),
                token_map: unbind_tokens(self.token_map, self.sessions[sid].tokens),
            }
        } else {
            self
        }
    }

    /// The registry with what is known of one session replaced.
    pub open spec fn with_session(self, sid: Seq<char>, s: SessionView) -> RegistryView {
        RegistryView { sessions: self.sessions.insert(sid, s), ..self }
    }

    pub open spec fn register(
        self,
        fixed_key: Option<Seq<char>>,
        token_type: Seq<char>,
        desired: Option<Seq<char>>,
        fresh: FreshView,
    ) -> (RegistryView, Registered) {
        match new_id(desired, fresh.session_id) {
            None => (self, Err(RegisterError::InvalidId)),
            Some(sid) => if self.sessions.contains_key(sid) {
                (self, Err(RegisterError::IdTaken))
            } else {
                let tokens = new_tokens(fixed_key, token_type, fresh);
                let s = SessionView {
                    tokens,
                    fixed_key,
                    is_temporary: fixed_key is None,
                    tags: Seq::empty(),
                };
                (self.add(sid, s), Ok((sid, tokens)))
            },
        }
    }

    /// Whether one of the tokens opens the session.
    pub open spec fn opened_by(self, sid: Seq<char>, toks: Tokens) -> bool {
        exists|i: int|
            0 <= i < toks.len() && self.opens((#[trigger] toks[i]).0, sid)
    }

    pub open spec fn register_existing(
        self,
        tokens: Tokens,
        desired: Option<Seq<char>>,
        fresh_id: Seq<char>,
    ) -> (RegistryView, Registered) {
        match new_id(desired, fresh_id) {
            None => (self, Err(RegisterError::InvalidId)),
            Some(sid) => if self.sessions.contains_key(sid) && !self.opened_by(sid, tokens) {
                (self, Err(RegisterError::IdTaken))
            } else {
                let s = SessionView {
                    tokens,
                    fixed_key: None,
                    is_temporary: true,
                    tags: Seq::empty(),
                };
                (self.remove(sid).add(sid, s), Ok((sid, tokens)))
            },
        }
    }

    pub open spec fn revoke_token(self, t: Seq<char>) -> RegistryView {
        match self.authenticate(t) {
            None => self,
            Some((sid, _)) => {
                let kept = RegistryView { token_map: self.token_map.remove(t), ..self };
                if self.sessions.contains_key(sid) {
                    let s = self.sessions[sid];
                    kept.with_session(
                        sid,
                        SessionView {
                            tokens: s.tokens.filter(not_token(t)),
                            ..s
                        },
                    )
                } else {
                    kept
                }
            },
        }
    }

    /// How many tokens a session has.
    pub open spec fn slots(self, sid: Seq<char>) -> nat {
        if self.sessions.contains_key(sid) {
            self.sessions[sid].tokens.len()
        } else {
            0
        }
    }

    pub open spec fn regenerate_session(
        self,
        sid: Seq<char>,
        fresh: Seq<Seq<char>>,
    ) -> (RegistryView, Option<Tokens>) {
        if self.slots(sid) == 0 {
            (self, None)
        } else {
            let s = self.sessions[sid];
            let tokens = refreshed(s.tokens, fresh);
            let fixed_key = renewed_key(s.fixed_key, tokens);
            (self.remove(sid).add(sid, SessionView { tokens, fixed_key, ..s }), Some(tokens))
        }
    }

    pub open spec fn set_token_permission(self, t: Seq<char>, p: Permission) -> RegistryView {
        match self.authenticate(t) {
            None => self,
            Some((sid, _)) => {
                let bound = RegistryView { token_map: self.token_map.insert(t, (sid, p)), ..self };
                if self.sessions.contains_key(sid) {
                    let s = self.sessions[sid];
                    bound.with_session(
                        sid,
                        SessionView { tokens: with_permission(s.tokens, t, p), ..s },
                    )
                } else {
                    bound
                }
            },
        }
    }

    pub open spec fn add_tag(self, sid: Seq<char>, tag: Seq<char>) -> (RegistryView, bool) {
        let label = trimmed(tag);
        if label.len() == 0 || !self.sessions.contains_key(sid) {
            (self, false)
        } else {
            let s = self.sessions[sid];
            let tags = if s.tags.contains(label) {
                s.tags
            } else {
                s.tags.push(label)
            };
            (self.with_session(sid, SessionView { tags, ..s }), true)
        }
    }

    pub open spec fn remove_tag(self, sid: Seq<char>, tag: Seq<char>) -> (RegistryView, bool) {
        if !self.sessions.contains_key(sid) {
            (self, false)
        } else {
            let label = trimmed(tag);
            let s = self.sessions[sid];
            let tags = s.tags.filter(other_than(label));
            (self.with_session(sid, SessionView { tags, ..s }), true)
        }
    }
}

// ---- what the operations keep ----
proof fn lemma_bind_tokens(m: Map<Seq<char>, (Seq<char>, Permission)>, sid: Seq<char>, toks: Tokens)
    ensures
        forall|t: Seq<char>| #[trigger]
            bind_tokens(m, sid, toks).contains_key(t) <==> m.contains_key(t) || lists(toks, t),
        forall|t: Seq<char>|
            lists(toks, t) ==> (#[trigger] bind_tokens(m, sid, toks)[t]).0 == sid && toks.contains(
                (t, bind_tokens(m, sid, toks)[t].1),
            ),
        forall|t: Seq<char>| !lists(toks, t) ==> #[trigger] bind_tokens(m, sid, toks)[t] == m[t],
    decreases toks.len(),
{
    if toks.len() > 0 {
        let init = toks.drop_last();
        lemma_bind_tokens(m, sid, init);
        let b = bind_tokens(m, sid, toks);
        let last = toks.last();
        assert(toks[toks.len() - 1] == last);
        assert forall|t: Seq<char>| lists(toks, t) <==> lists(init, t) || t == last.0 by {
            if lists(init, t) {
                let i = choose|i: int| 0 <= i < init.len() && (#[trigger] init[i]).0 == t;
                assert(toks[i].0 == t);
            }
            if lists(toks, t) && t != last.0 {
                let i = choose|i: int| 0 <= i < toks.len() && (#[trigger] toks[i]).0 == t;
                assert(init[i].0 == t);
            }
        }
        assert forall|t: Seq<char>| lists(toks, t) implies (#[trigger] b[t]).0 == sid
            && toks.contains((t, b[t].1)) by {
            if t == last.0 {
                assert(toks[toks.len() - 1] == (t, b[t].1));
            } else {
                let p = bind_tokens(m, sid, init)[t].1;
                let i = choose|i: int| 0 <= i < init.len() && init[i] == (t, p);
                assert(toks[i] == (t, p));
            }
        }
    } else {
        assert forall|t: Seq<char>| !lists(toks, t) by {}
    }
}

proof fn lemma_listed(toks: Tokens, t: Seq<char>, p: Permission)
    requires
        toks.contains((t, p)),
    ensures
        lists(toks, t),
{
    let i = choose|i: int| 0 <= i < toks.len() && toks[i] == (t, p);
    assert(toks[i].0 == t);
}

/// Removing a session keeps a registry valid.
pub proof fn remove_keeps_valid(v: RegistryView, sid: Seq<char>)
    requires
        v.valid(),
    ensures
        v.remove(sid).valid(),
        !v.remove(sid).sessions.contains_key(sid),
{
    let w = v.remove(sid);
    assert forall|t: Seq<char>| #[trigger] w.token_map.contains_key(t) implies {
        let (id, p) = w.token_map[t];
        w.sessions.contains_key(id) && w.sessions[id].tokens.contains((t, p))
    } by {
        let (id, p) = v.token_map[t];
        assert(v.token_map.contains_key(t));
        if v.sessions.contains_key(sid) && id == sid {
            lemma_listed(v.sessions[sid].tokens, t, p);
        }
    }
    assert forall|id: Seq<char>| #[trigger]
        w.sessions.contains_key(id) implies are_labels(w.sessions[id].tags) by {
        assert(v.sessions.contains_key(id));
    }
}

/// Adding a session under a free id keeps a registry valid.
pub proof fn add_keeps_valid(v: RegistryView, sid: Seq<char>, s: SessionView)
    requires
        v.valid(),
        !v.sessions.contains_key(sid),
        are_labels(s.tags),
    ensures
        v.add(sid, s).valid(),
{
    let w = v.add(sid, s);
    lemma_bind_tokens(v.token_map, sid, s.tokens);
    assert forall|t: Seq<char>| #[trigger] w.token_map.contains_key(t) implies {
        let (id, p) = w.token_map[t];
        w.sessions.contains_key(id) && w.sessions[id].tokens.contains((t, p))
    } by {
        if !lists(s.tokens, t) {
            assert(v.token_map.contains_key(t));
            assert(w.token_map[t] == v.token_map[t]);
        } else {
            assert(w.token_map[t].0 == sid);
        }
    }
    assert forall|id: Seq<char>| #[trigger]
        w.sessions.contains_key(id) implies are_labels(w.sessions[id].tags) by {
        if id != sid {
            assert(v.sessions.contains_key(id));
        }
    }
}

/// Registering keeps a registry valid.
pub proof fn register_keeps_valid(
    v: RegistryView,
    fixed_key: Option<Seq<char>>,
    token_type: Seq<char>,
    desired: Option<Seq<char>>,
    fresh: FreshView,
)
    requires
        v.valid(),
    ensures
        v.register(fixed_key, token_type, desired, fresh).0.valid(),
{
    let (w, r) = v.register(fixed_key, token_type, desired, fresh);
    if let Ok((sid, tokens)) = r {
        add_keeps_valid(v, sid, w.sessions[sid]);
    }
}

/// Registering again with known tokens keeps a registry valid.
pub proof fn register_existing_keeps_valid(
    v: RegistryView,
    tokens: Tokens,
    desired: Option<Seq<char>>,
    fresh_id: Seq<char>,
)
    requires
        v.valid(),
    ensures
        v.register_existing(tokens, desired, fresh_id).0.valid(),
{
    let (w, r) = v.register_existing(tokens, desired, fresh_id);
    if let Ok((sid, toks)) = r {
        remove_keeps_valid(v, sid);
        add_keeps_valid(v.remove(sid), sid, w.sessions[sid]);
    }
}

/// Revoking a token keeps a registry valid.
pub proof fn revoke_token_keeps_valid(v: RegistryView, t: Seq<char>)
    requires
        v.valid(),
    ensures
        v.revoke_token(t).valid(),
{
    let w = v.revoke_token(t);
    if let Some((sid, _)) = v.authenticate(t) {
        assert(v.token_map.contains_key(t));
        let s = v.sessions[sid];
        let keep = not_token(t);
        assert forall|u: Seq<char>| #[trigger] w.token_map.contains_key(u) implies {
            let (id, p) = w.token_map[u];
            w.sessions.contains_key(id) && w.sessions[id].tokens.contains((u, p))
        } by {
            let (id, p) = v.token_map[u];
            assert(v.token_map.contains_key(u));
            if id == sid {
                lemma_filter(s.tokens, keep);
            }
        }
        assert forall|id: Seq<char>| #[trigger]
            w.sessions.contains_key(id) implies are_labels(w.sessions[id].tags) by {
            assert(v.sessions.contains_key(id));
        }
    }
}

/// Regenerating the tokens of a session keeps a registry valid.
pub proof fn regenerate_session_keeps_valid(v: RegistryView, sid: Seq<char>, fresh: Seq<Seq<char>>)
    requires
        v.valid(),
    ensures
        v.regenerate_session(sid, fresh).0.valid(),
{
    if v.slots(sid) > 0 {
        let s = v.sessions[sid];
        let tokens = refreshed(s.tokens, fresh);
        let fixed_key = renewed_key(s.fixed_key, tokens);
        remove_keeps_valid(v, sid);
        add_keeps_valid(v.remove(sid), sid, SessionView { tokens, fixed_key, ..s });
    }
}

/// The first of the tokens that is `t`.
proof fn lemma_first(toks: Tokens, t: Seq<char>) -> (i: int)
    requires
        lists(toks, t),
    ensures
        0 <= i < toks.len(),
        toks[i].0 == t,
        forall|j: int| 0 <= j < i ==> (#[trigger] toks[j]).0 != t,
    decreases toks.len(),
{
    let k = choose|k: int| 0 <= k < toks.len() && (#[trigger] toks[k]).0 == t;
    let head = toks.take(k);
    if lists(head, t) {
        let i = lemma_first(head, t);
        assert(toks[i] == head[i]);
        assert forall|j: int| 0 <= j < i implies (#[trigger] toks[j]).0 != t by {
            assert(toks[j] == head[j]);
        }
        i
    } else {
        assert forall|j: int| 0 <= j < k implies (#[trigger] toks[j]).0 != t by {
            assert(head[j] == toks[j]);
        }
        k
    }
}

/// Setting a token's permission keeps a registry valid.
pub proof fn set_token_permission_keeps_valid(v: RegistryView, t: Seq<char>, p: Permission)
    requires
        v.valid(),
    ensures
        v.set_token_permission(t, p).valid(),
{
    let w = v.set_token_permission(t, p);
    if let Some((sid, _)) = v.authenticate(t) {
        assert(v.token_map.contains_key(t));
        let s = v.sessions[sid];
        let toks = with_permission(s.tokens, t, p);
        lemma_listed(s.tokens, t, v.token_map[t].1);
        let first = lemma_first(s.tokens, t);
        assert(toks[first] == (t, p));
        assert forall|u: Seq<char>| #[trigger] w.token_map.contains_key(u) implies {
            let (id, q) = w.token_map[u];
            w.sessions.contains_key(id) && w.sessions[id].tokens.contains((u, q))
        } by {
            if u != t {
                assert(v.token_map.contains_key(u));
                let (id, q) = v.token_map[u];
                if id == sid {
                    let i = choose|i: int| 0 <= i < s.tokens.len() && s.tokens[i] == (u, q);
                    assert(toks[i] == (u, q));
                }
            }
        }
        assert forall|id: Seq<char>| #[trigger]
            w.sessions.contains_key(id) implies are_labels(w.sessions[id].tags) by {
            assert(v.sessions.contains_key(id));
        }
    }
}

proof fn lemma_retag(v: RegistryView, sid: Seq<char>, tags: Seq<Seq<char>>)
    requires
        v.valid(),
        v.sessions.contains_key(sid),
        are_labels(tags),
    ensures
        v.with_session(sid, SessionView { tags, ..v.sessions[sid] }).valid(),
{
    let w = v.with_session(sid, SessionView { tags, ..v.sessions[sid] });
    assert forall|u: Seq<char>| #[trigger] w.token_map.contains_key(u) implies {
        let (id, q) = w.token_map[u];
        w.sessions.contains_key(id) && w.sessions[id].tokens.contains((u, q))
    } by {
        assert(v.token_map.contains_key(u));
    }
    assert forall|id: Seq<char>| #[trigger]
        w.sessions.contains_key(id) implies are_labels(w.sessions[id].tags) by {
        if id != sid {
            assert(v.sessions.contains_key(id));
        }
    }
}

/// Tagging keeps a registry valid.
pub proof fn add_tag_keeps_valid(v: RegistryView, sid: Seq<char>, tag: Seq<char>)
    requires
        v.valid(),
    ensures
        v.add_tag(sid, tag).0.valid(),
{
    let label = trimmed(tag);
    if label.len() > 0 && v.sessions.contains_key(sid) {
        let tags = v.sessions[sid].tags;
        assert(are_labels(tags));
        if !tags.contains(label) {
            let more = tags.push(label);
            lemma_trimmed_idempotent(tag);
            assert forall|i: int, j: int|
                0 <= i < more.len() && 0 <= j < more.len() && i != j implies more[i] != more[j] by {
                if i < tags.len() {
                    assert(tags.contains(tags[i]));
                }
                if j < tags.len() {
                    assert(tags.contains(tags[j]));
                }
            }
            lemma_retag(v, sid, more);
        } else {
            lemma_retag(v, sid, tags);
        }
    }
}

/// Untagging keeps a registry valid.
pub proof fn remove_tag_keeps_valid(v: RegistryView, sid: Seq<char>, tag: Seq<char>)
    requires
        v.valid(),
    ensures
        v.remove_tag(sid, tag).0.valid(),
{
    if v.sessions.contains_key(sid) {
        let label = trimmed(tag);
        let keep = other_than(label);
        assert(are_labels(v.sessions[sid].tags));
        let tags = v.sessions[sid].tags;
        let kept = tags.filter(keep);
        lemma_filter(tags, keep);
        assert forall|i: int| 0 <= i < kept.len() implies (#[trigger] kept[i]).len() > 0
            && trimmed(kept[i]) == kept[i] by {
            assert(kept.contains(kept[i]));
            let j = choose|j: int| 0 <= j < tags.len() && tags[j] == kept[i];
            assert(tags[j].len() > 0);
        }
        lemma_retag(v, sid, kept);
    }
}

// ---- the registry ----
impl View for SessionRegistry {
    type V = RegistryView;

    closed spec fn view(&self) -> RegistryView {
        RegistryView { sessions: self.sessions@, token_map: self.token_map@ }
    }
}

/// Binds each token to a session.
fn bind(map: &mut StrMap<(String, Permission)>, sid: &String, tokens: &Vec<(String, Permission)>)
    ensures
        final(map)@ == bind_tokens(old(map)@, sid@, tokens_view(tokens@)),
{
    let ghost toks = tokens_view(tokens@);
    let mut i: usize = 0;
    assert(toks.take(0) =~= Seq::<(Seq<char>, Permission)>::empty());
    while i < tokens.len()
        invariant
            i <= tokens@.len(),
            toks == tokens_view(tokens@),
            map@ == bind_tokens(old(map)@, sid@, toks.take(i as int)),
        decreases tokens@.len() - i,
    {
        map.insert(tokens[i].0.clone(), (sid.clone(), tokens[i].1));
        assert(toks.take(i + 1).drop_last() =~= toks.take(i as int));
        assert(toks.take(i + 1).last() == (tokens@[i as int].0@, tokens@[i as int].1));
        i = i + 1;
    }
    assert(toks.take(toks.len() as int) =~= toks);
}

/// Takes each token out.
fn unbind(map: &mut StrMap<(String, Permission)>, tokens: &Vec<(String, Permission)>)
    ensures
        final(map)@ == unbind_tokens(old(map)@, tokens_view(tokens@)),
{
    let ghost toks = tokens_view(tokens@);
    let mut i: usize = 0;
    assert(map@ =~= unbind_tokens(old(map)@, toks.take(0)));
    while i < tokens.len()
        invariant
            i <= tokens@.len(),
            toks == tokens_view(tokens@),
            map@ == unbind_tokens(old(map)@, toks.take(i as int)),
        decreases tokens@.len() - i,
    {
        let ghost before = map@;
        let _ = map.remove(tokens[i].0.as_str());
        proof {
            let a = toks.take(i as int);
            let b = toks.take(i + 1);
            let t = tokens@[i as int].0@;
            assert(b[i as int].0 == t);
            assert forall|u: Seq<char>| lists(b, u) <==> lists(a, u) || u == t by {
                if lists(a, u) {
                    let k = choose|k: int| 0 <= k < a.len() && (#[trigger] a[k]).0 == u;
                    assert(b[k].0 == u);
                }
                if lists(b, u) && u != t {
                    let k = choose|k: int| 0 <= k < b.len() && (#[trigger] b[k]).0 == u;
                    assert(a[k].0 == u);
                }
            }
            assert(map@ =~= unbind_tokens(old(map)@, b));
        }
        i = i + 1;
    }
    assert(toks.take(toks.len() as int) =~= toks);
}

/// The tokens of a new session.
fn make_tokens(
    fixed_key: &Option<String>,
    token_type: &str,
    rw_token: String,
    ro_token: String,
) -> (r: Vec<(String, Permission)>)
    ensures
        forall|fresh: FreshView|
            fresh.rw_token == rw_token@ && fresh.ro_token == ro_token@ ==> tokens_view(r@)
                == #[trigger] new_tokens(opt_text(*fixed_key), token_type@, fresh),
{
    let first = match fixed_key {
        Some(k) => k.clone(),
        None => rw_token,
    };
    let mut r: Vec<(String, Permission)> = Vec::new();
    if str_eq(token_type, "both") {
        r.push((first, Permission::ReadWrite));
        r.push((ro_token, Permission::ReadOnly));
    } else if str_eq(token_type, "ro") {
        r.push((first, Permission::ReadOnly));
    } else {
        r.push((first, Permission::ReadWrite));
    }
    assert forall|fresh: FreshView|
        fresh.rw_token == rw_token@ && fresh.ro_token == ro_token@ implies tokens_view(r@)
        == #[trigger] new_tokens(opt_text(*fixed_key), token_type@, fresh) by {
        assert(tokens_view(r@) =~= new_tokens(opt_text(*fixed_key), token_type@, fresh));
    }
    r
}

impl SessionRegistry {
    #[verifier::type_invariant]
    spec fn inv(self) -> bool {
        self@.valid()
    }

    /// The ids of the sessions, in the order in which they are listed.
    pub closed spec fn order(&self) -> Seq<Seq<char>> {
        self.sessions.keys()
    }

    pub fn new() -> (r: Self)
        ensures
            r@ == RegistryView::empty(),
    {
        SessionRegistry { sessions: StrMap::new(), token_map: StrMap::new() }
    }

    fn take(&mut self) -> (r: (StrMap<SessionInfo>, StrMap<(String, Permission)>))
        ensures
            r.0@ == old(self)@.sessions,
            r.1@ == old(self)@.token_map,
            final(self)@ == RegistryView::empty(),
            old(self)@.valid(),
    {
        proof {
            use_type_invariant(&*self);
        }
        let mut token_map: StrMap<(String, Permission)> = StrMap::new();
        std::mem::swap(&mut token_map, &mut self.token_map);
        let mut sessions: StrMap<SessionInfo> = StrMap::new();
        std::mem::swap(&mut sessions, &mut self.sessions);
        (sessions, token_map)
    }

    /// Registers a session, with the random values given.
    pub fn register_with(
        &mut self,
        fixed_key: Option<String>,
        token_type: &str,
        desired_id: Option<String>,
        fresh: FreshIds,
    ) -> (r: Result<(String, Vec<(String, Permission)>), RegisterError>)
        ensures
            (final(self)@, registered_view(r)) == old(self)@.register(
                opt_text(fixed_key),
                token_type@,
                opt_text(desired_id),
                fresh@,
            ),
    {
        let ghost v = self@;
        proof {
            use_type_invariant(&*self);
            register_keeps_valid(v, opt_text(fixed_key), token_type@, opt_text(desired_id), fresh@);
        }
        let ghost key = opt_text(fixed_key);
        let ghost drawn = fresh@;
        let FreshIds { rw_token, ro_token, session_id } = fresh;
        let tokens = make_tokens(&fixed_key, token_type, rw_token, ro_token);
        let sid = match desired_id {
            Some(id) => {
                if !is_valid_custom_session_id(id.as_str()) {
                    return Err(RegisterError::InvalidId);
                }
                id
            },
            None => session_id,
        };
        if self.sessions.contains_key(sid.as_str()) {
            return Err(RegisterError::IdTaken);
        }
        let (mut sessions, mut token_map) = self.take();
        bind(&mut token_map, &sid, &tokens);
        let is_temporary = fixed_key.is_none();
        let info = SessionInfo {
            tokens: copy_tokens(&tokens),
            fixed_key,
            is_temporary,
            tags: Vec::new(),
        };
        assert(info@.tags =~= Seq::<Seq<char>>::empty());
        sessions.insert(sid.clone(), info);
        *self = SessionRegistry { sessions, token_map };
        Ok((sid, tokens))
    }

    /// Registers a session. Its id is the one asked for, or a random one; its tokens are the fixed
    /// key and random ones, as `token_type` says. It is temporary unless it has a fixed key.
    pub fn register(
        &mut self,
        fixed_key: Option<String>,
        token_type: &str,
        desired_id: Option<String>,
    ) -> (r: Result<(String, Vec<(String, Permission)>), RegisterError>)
        ensures
            exists|fresh: FreshView| #[trigger]
                fresh.drawn() && (final(self)@, registered_view(r)) == old(self)@.register(
                    opt_text(fixed_key),
                    token_type@,
                    opt_text(desired_id),
                    fresh,
                ),
    {
        let fresh = FreshIds::draw();
        let ghost f = fresh@;
        let r = self.register_with(fixed_key, token_type, desired_id, fresh);
        assert(f.drawn());
        r
    }

    /// The session that a token opens, and what it allows there.
    pub fn authenticate(&self, token: &str) -> (r: Option<(String, Permission)>)
        ensures
            access_view(r) == self@.authenticate(token@),
            self@.valid(),
    {
        proof {
            use_type_invariant(self);
        }
        match self.token_map.get(token) {
            Some(e) => Some((e.0.clone(), e.1)),
            None => None,
        }
    }

    fn opens(&self, sid: &str, tokens: &Vec<(String, Permission)>) -> (r: bool)
        ensures
            r == self@.opened_by(sid@, tokens_view(tokens@)),
    {
        let ghost toks = tokens_view(tokens@);
        let mut i: usize = 0;
        while i < tokens.len()
            invariant
                i <= tokens@.len(),
                toks == tokens_view(tokens@),
                forall|j: int|
                    0 <= j < i ==> !(self@.token_map.contains_key((#[trigger] toks[j]).0)
                        && self@.token_map[toks[j].0].0 == sid@),
            decreases tokens@.len() - i,
        {
            assert(toks[i as int].0 == tokens@[i as int].0@);
            match self.token_map.get(tokens[i].0.as_str()) {
                Some(e) => {
                    if str_eq(e.0.as_str(), sid) {
                        return true;
                    }
                },
                None => {},
            }
            i = i + 1;
        }
        false
    }

    /// Registers an agent that comes back with its tokens, with the random id given.
    pub fn register_existing_with(
        &mut self,
        tokens: Vec<(String, Permission)>,
        desired_id: Option<String>,
        fresh_id: String,
    ) -> (r: Result<(String, Vec<(String, Permission)>), RegisterError>)
        ensures
            (final(self)@, registered_view(r)) == old(self)@.register_existing(
                tokens_view(tokens@),
                opt_text(desired_id),
                fresh_id@,
            ),
    {
        let ghost v = self@;
        proof {
            use_type_invariant(&*self);
            register_existing_keeps_valid(
                v,
                tokens_view(tokens@),
                opt_text(desired_id),
                fresh_id@,
            );
        }
        let sid = match desired_id {
            Some(id) => {
                if !is_valid_custom_session_id(id.as_str()) {
                    return Err(RegisterError::InvalidId);
                }
                id
            },
            None => fresh_id,
        };
        if self.sessions.contains_key(sid.as_str()) && !self.opens(sid.as_str(), &tokens) {
            return Err(RegisterError::IdTaken);
        }
        let (mut sessions, mut token_map) = self.take();
        match sessions.remove(sid.as_str()) {
            Some(stale) => {
                unbind(&mut token_map, &stale.tokens);
            },
            None => {
                assert(sessions@ =~= v.sessions);
            },
        }
        bind(&mut token_map, &sid, &tokens);
        let info = SessionInfo {
            tokens: copy_tokens(&tokens),
            fixed_key: None,
            is_temporary: true,
            tags: Vec::new(),
        };
        assert(info@.tags =~= Seq::<Seq<char>>::empty());
        sessions.insert(sid.clone(), info);
        *self = SessionRegistry { sessions, token_map };
        Ok((sid, tokens))
    }

    /// Registers an agent that comes back with its tokens: they open a new session, which is
    /// temporary. An id that is taken is given only to an agent one of whose tokens opens the
    /// session that holds it; that session is then removed.
    pub fn register_existing(
        &mut self,
        tokens: Vec<(String, Permission)>,
        desired_id: Option<String>,
    ) -> (r: Result<(String, Vec<(String, Permission)>), RegisterError>)
        ensures
            exists|fresh_id: Seq<char>| #[trigger]
                is_hex(fresh_id, 8) && (final(self)@, registered_view(r))
                    == old(self)@.register_existing(
                    tokens_view(tokens@),
                    opt_text(desired_id),
                    fresh_id,
                ),
    {
        let fresh_id = generate_session_id();
        let ghost f = fresh_id@;
        let r = self.register_existing_with(tokens, desired_id, fresh_id);
        assert(is_hex(f, 8));
        r
    }

    /// Removes a session and its tokens.
    pub fn remove(&mut self, session_id: &str)
        ensures
            final(self)@ == old(self)@.remove(session_id@),
    {
        let ghost v = self@;
        proof {
            use_type_invariant(&*self);
            remove_keeps_valid(v, session_id@);
        }
        let (mut sessions, mut token_map) = self.take();
        match sessions.remove(session_id) {
            Some(info) => {
                unbind(&mut token_map, &info.tokens);
            },
            None => {
                assert(sessions@ =~= v.sessions);
            },
        }
        *self = SessionRegistry { sessions, token_map };
    }

    /// Whether a session is known and was registered without a fixed key.
    pub fn is_temporary(&self, session_id: &str) -> (r: bool)
        ensures
            r == (self@.sessions.contains_key(session_id@)
                && self@.sessions[session_id@].is_temporary),
    {
        match self.sessions.get(session_id) {
            Some(info) => info.is_temporary,
            None => false,
        }
    }

    /// How many sessions there are.
    pub fn count(&self) -> (n: usize)
        ensures
            n == self@.sessions.len(),
            self@.sessions.dom().finite(),
    {
        self.sessions.len()
    }

    /// Every session once, with what is known of it.
    pub fn list_sessions(&self) -> (r: Vec<(String, SessionInfo)>)
        ensures
            r@.len() == self.order().len(),
            forall|i: int|
                0 <= i < r@.len() ==> (#[trigger] r@[i]).0@ == self.order()[i] && r@[i].1@
                    == self@.sessions[self.order()[i]],
            self.order().no_duplicates(),
            self.order().to_set() == self@.sessions.dom(),
            r@.len() == self@.sessions.len(),
    {
        let n = self.sessions.len();
        let mut r: Vec<(String, SessionInfo)> = Vec::new();
        let mut i: usize = 0;
        while i < n
            invariant
                i <= n,
                n == self.sessions.keys().len(),
                r@.len() == i,
                forall|j: int|
                    0 <= j < i ==> (#[trigger] r@[j]).0@ == self.order()[j] && r@[j].1@
                        == self@.sessions[self.order()[j]],
            decreases n - i,
        {
            r.push((self.sessions.key_at(i).clone(), self.sessions.value_at(i).copy()));
            i = i + 1;
        }
        r
    }

    /// Takes a token from its session. Returns whether the token was known.
    pub fn revoke_token(&mut self, token: &str) -> (r: bool)
        ensures
            r == old(self)@.token_map.contains_key(token@),
            final(self)@ == old(self)@.revoke_token(token@),
    {
        let ghost v = self@;
        proof {
            use_type_invariant(&*self);
            revoke_token_keeps_valid(v, token@);
        }
        let sid = match self.token_map.get(token) {
            Some(e) => e.0.clone(),
            None => {
                return false;
            },
        };
        let (mut sessions, mut token_map) = self.take();
        let _ = token_map.remove(token);
        let updated = match sessions.get(sid.as_str()) {
            Some(info) => {
                let mut copy = info.copy();
                copy.tokens = without_token(&info.tokens, token);
                Some(copy)
            },
            None => None,
        };
        match updated {
            Some(info) => {
                sessions.insert(sid, info);
            },
            None => {},
        }
        *self = SessionRegistry { sessions, token_map };
        true
    }

    /// Gives each of a session's tokens the fresh token in its place. A fixed key is replaced too, by
    /// the first of them.
    pub fn regenerate_with(&mut self, session_id: &str, fresh: Vec<String>) -> (r: Option<
        Vec<(String, Permission)>,
    >)
        requires
            fresh@.len() == old(self)@.slots(session_id@),
        ensures
            (final(self)@, opt_tokens(r)) == old(self)@.regenerate_session(
                session_id@,
                texts_view(fresh@),
            ),
    {
        let ghost v = self@;
        let ghost texts = texts_view(fresh@);
        proof {
            use_type_invariant(&*self);
            regenerate_session_keeps_valid(v, session_id@, texts);
        }
        let slots = match self.sessions.get(session_id) {
            Some(info) => info.tokens.len(),
            None => 0,
        };
        if slots == 0 {
            return None;
        }
        let (mut sessions, mut token_map) = self.take();
        match sessions.remove(session_id) {
            Some(info) => {
                unbind(&mut token_map, &info.tokens);
                let sid = session_id.to_owned();
                let tokens = refresh(&info.tokens, &fresh);
                bind(&mut token_map, &sid, &tokens);
                let mut info = info;
                if info.fixed_key.is_some() {
                    info.fixed_key = Some(tokens[0].0.clone());
                }
                info.tokens = copy_tokens(&tokens);
                sessions.insert(sid, info);
                *self = SessionRegistry { sessions, token_map };
                Some(tokens)
            },
            None => None,
        }
    }

    /// Gives a session fresh random tokens with the permissions of the old ones, which open nothing
    /// any more. A fixed key is replaced too: the agent must come back with the new credentials. There
    /// is nothing to give where the session is unknown or has no tokens.
    pub fn regenerate_session(&mut self, session_id: &str) -> (r: Option<Vec<(String, Permission)>>)
        ensures
            exists|fresh: Seq<Seq<char>>| #[trigger]
                all_tokens(fresh, old(self)@.slots(session_id@)) && (final(self)@, opt_tokens(r))
                    == old(self)@.regenerate_session(session_id@, fresh),
    {
        let slots = match self.sessions.get(session_id) {
            Some(info) => info.tokens.len(),
            None => 0,
        };
        let mut fresh: Vec<String> = Vec::new();
        while fresh.len() < slots
            invariant
                fresh@.len() <= slots,
                forall|i: int| 0 <= i < fresh@.len() ==> is_hex((#[trigger] fresh@[i])@, 64),
            decreases slots - fresh@.len(),
        {
            fresh.push(generate_token());
        }
        let ghost texts = texts_view(fresh@);
        assert(all_tokens(texts, self@.slots(session_id@)));
        self.regenerate_with(session_id, fresh)
    }

    /// Sets what a token allows. Returns whether the token was known.
    pub fn set_token_permission(&mut self, token: &str, perm: Permission) -> (r: bool)
        ensures
            r == old(self)@.token_map.contains_key(token@),
            final(self)@ == old(self)@.set_token_permission(token@, perm),
    {
        let ghost v = self@;
        proof {
            use_type_invariant(&*self);
            set_token_permission_keeps_valid(v, token@, perm);
        }
        let sid = match self.token_map.get(token) {
            Some(e) => e.0.clone(),
            None => {
                return false;
            },
        };
        let (mut sessions, mut token_map) = self.take();
        token_map.insert(token.to_owned(), (sid.clone(), perm));
        let updated = match sessions.get(sid.as_str()) {
            Some(info) => {
                let mut copy = info.copy();
                copy.tokens = set_permission(&info.tokens, token, perm);
                Some(copy)
            },
            None => None,
        };
        match updated {
            Some(info) => {
                sessions.insert(sid, info);
            },
            None => {},
        }
        *self = SessionRegistry { sessions, token_map };
        true
    }

    /// Puts a label on a session, trimmed; a label that is there already is not added again.
    /// Returns whether the session is known and the label is not blank.
    pub fn add_tag(&mut self, session_id: &str, tag: &str) -> (r: bool)
        ensures
            (final(self)@, r) == old(self)@.add_tag(session_id@, tag@),
    {
        let ghost v = self@;
        proof {
            use_type_invariant(&*self);
            add_tag_keeps_valid(v, session_id@, tag@);
        }
        let label = trim(tag);
        if label.is_empty() {
            return false;
        }
        let mut info = match self.sessions.get(session_id) {
            Some(info) => info.copy(),
            None => {
                return false;
            },
        };
        let ghost before = info@;
        if !has_text(&info.tags, label) {
            info.tags.push(label.to_owned());
            assert(texts_view(info.tags@) =~= before.tags.push(label@));
        }
        let (mut sessions, token_map) = self.take();
        sessions.insert(session_id.to_owned(), info);
        *self = SessionRegistry { sessions, token_map };
        true
    }

    /// Takes a label off a session. Returns whether the session is known.
    pub fn remove_tag(&mut self, session_id: &str, tag: &str) -> (r: bool)
        ensures
            (final(self)@, r) == old(self)@.remove_tag(session_id@, tag@),
    {
        let ghost v = self@;
        proof {
            use_type_invariant(&*self);
            remove_tag_keeps_valid(v, session_id@, tag@);
        }
        let label = trim(tag);
        let mut info = match self.sessions.get(session_id) {
            Some(info) => info.copy(),
            None => {
                return false;
            },
        };
        info.tags = without_text(&info.tags, label);
        let (mut sessions, token_map) = self.take();
        sessions.insert(session_id.to_owned(), info);
        *self = SessionRegistry { sessions, token_map };
        true
    }
}

/// Whether these are `n` tokens of the form that is drawn.
pub open spec fn all_tokens(fresh: Seq<Seq<char>>, n: nat) -> bool {
    fresh.len() == n && forall|i: int| 0 <= i < n ==> is_hex(#[trigger] fresh[i], 64)
}

fn without_token(tokens: &Vec<(String, Permission)>, t: &str) -> (r: Vec<(String, Permission)>)
    ensures
        tokens_view(r@) == tokens_view(tokens@).filter(not_token(t@)),
{
    let ghost toks = tokens_view(tokens@);
    let ghost keep = not_token(t@);
    let mut r: Vec<(String, Permission)> = Vec::new();
    let mut i: usize = 0;
    proof {
        reveal(Seq::filter);
        assert(tokens_view(r@) =~= toks.take(0).filter(keep));
    }
    while i < tokens.len()
        invariant
            i <= tokens@.len(),
            toks == tokens_view(tokens@),
            keep == (not_token(t@)),
            tokens_view(r@) == toks.take(i as int).filter(keep),
        decreases tokens@.len() - i,
    {
        proof {
            lemma_filter_push(toks.take(i as int), toks[i as int], keep);
            assert(toks.take(i + 1) =~= toks.take(i as int).push(toks[i as int]));
        }
        if !str_eq(tokens[i].0.as_str(), t) {
            let ghost before = r@;
            r.push((tokens[i].0.clone(), tokens[i].1));
            assert(tokens_view(r@) =~= tokens_view(before).push(toks[i as int]));
        }
        i = i + 1;
    }
    assert(toks.take(toks.len() as int) =~= toks);
    r
}

fn without_text(v: &Vec<String>, t: &str) -> (r: Vec<String>)
    ensures
        texts_view(r@) == texts_view(v@).filter(other_than(t@)),
{
    let ghost all = texts_view(v@);
    let ghost keep = other_than(t@);
    let mut r: Vec<String> = Vec::new();
    let mut i: usize = 0;
    proof {
        reveal(Seq::filter);
        assert(texts_view(r@) =~= all.take(0).filter(keep));
    }
    while i < v.len()
        invariant
            i <= v@.len(),
            all == texts_view(v@),
            keep == other_than(t@),
            texts_view(r@) == all.take(i as int).filter(keep),
        decreases v@.len() - i,
    {
        proof {
            lemma_filter_push(all.take(i as int), all[i as int], keep);
            assert(all.take(i + 1) =~= all.take(i as int).push(all[i as int]));
        }
        if !str_eq(v[i].as_str(), t) {
            let ghost before = r@;
            r.push(v[i].clone());
            assert(texts_view(r@) =~= texts_view(before).push(all[i as int]));
        }
        i = i + 1;
    }
    assert(all.take(all.len() as int) =~= all);
    r
}

fn has_text(v: &Vec<String>, t: &str) -> (r: bool)
    ensures
        r == texts_view(v@).contains(t@),
{
    let ghost all = texts_view(v@);
    let mut i: usize = 0;
    while i < v.len()
        invariant
            i <= v@.len(),
            all == texts_view(v@),
            forall|j: int| 0 <= j < i ==> #[trigger] all[j] != t@,
        decreases v@.len() - i,
    {
        if str_eq(v[i].as_str(), t) {
            assert(all[i as int] == t@);
            return true;
        }
        i = i + 1;
    }
    false
}

fn refresh(tokens: &Vec<(String, Permission)>, fresh: &Vec<String>) -> (r: Vec<
    (String, Permission),
>)
    requires
        fresh@.len() == tokens@.len(),
    ensures
        tokens_view(r@) == refreshed(tokens_view(tokens@), texts_view(fresh@)),
{
    let mut r: Vec<(String, Permission)> = Vec::new();
    let mut i: usize = 0;
    while i < tokens.len()
        invariant
            i <= tokens@.len(),
            fresh@.len() == tokens@.len(),
            r@.len() == i,
            forall|j: int|
                0 <= j < i ==> (#[trigger] r@[j]).0@ == fresh@[j]@ && r@[j].1 == tokens@[j].1,
        decreases tokens@.len() - i,
    {
        r.push((fresh[i].clone(), tokens[i].1));
        i = i + 1;
    }
    assert(tokens_view(r@) =~= refreshed(tokens_view(tokens@), texts_view(fresh@)));
    r
}

fn set_permission(tokens: &Vec<(String, Permission)>, t: &str, p: Permission) -> (r: Vec<
    (String, Permission),
>)
    ensures
        tokens_view(r@) == with_permission(tokens_view(tokens@), t@, p),
{
    let ghost toks = tokens_view(tokens@);
    let mut r: Vec<(String, Permission)> = Vec::new();
    let mut found = false;
    let mut i: usize = 0;
    while i < tokens.len()
        invariant
            i <= tokens@.len(),
            toks == tokens_view(tokens@),
            r@.len() == i,
            found <==> exists|j: int| 0 <= j < i && (#[trigger] toks[j]).0 == t@,
            forall|j: int|
                0 <= j < i ==> ((#[trigger] r@[j]).0@, r@[j].1) == with_permission(
                    toks,
                    t@,
                    p,
                )[j],
        decreases tokens@.len() - i,
    {
        assert(toks[i as int] == (tokens@[i as int].0@, tokens@[i as int].1));
        if !found && str_eq(tokens[i].0.as_str(), t) {
            r.push((tokens[i].0.clone(), p));
            found = true;
        } else {
            r.push((tokens[i].0.clone(), tokens[i].1));
        }
        i = i + 1;
    }
    assert(tokens_view(r@) =~= with_permission(toks, t@, p));
    r
}

// ---- laws ----
/// A registered session's tokens open it with the permissions they were given, every other token
/// opens what it opened, and no other session changes.
pub proof fn registered_tokens_open(
    v: RegistryView,
    fixed_key: Option<Seq<char>>,
    token_type: Seq<char>,
    desired: Option<Seq<char>>,
    fresh: FreshView,
    t: Seq<char>,
)
    requires
        v.valid(),
    ensures
        ({
            let (w, r) = v.register(fixed_key, token_type, desired, fresh);
            match r {
                Ok((sid, tokens)) => {
                    &&& !v.sessions.contains_key(sid)
                    &&& lists(tokens, t) ==> w.opens(t, sid) && tokens.contains(
                        (t, w.token_map[t].1),
                    )
                    &&& !lists(tokens, t) ==> w.authenticate(t) == v.authenticate(t)
                    &&& w.sessions.remove(sid) == v.sessions
                },
                Err(_) => w == v,
            }
        }),
{
    let (w, r) = v.register(fixed_key, token_type, desired, fresh);
    if let Ok((sid, tokens)) = r {
        lemma_bind_tokens(v.token_map, sid, tokens);
        assert(w.sessions.remove(sid) =~= v.sessions);
    }
}

/// An agent that comes back with its tokens finds that they open its session.
pub proof fn reused_tokens_open(
    v: RegistryView,
    tokens: Tokens,
    desired: Option<Seq<char>>,
    fresh_id: Seq<char>,
    t: Seq<char>,
)
    requires
        v.valid(),
        lists(tokens, t),
    ensures
        ({
            let (w, r) = v.register_existing(tokens, desired, fresh_id);
            match r {
                Ok((sid, kept)) => {
                    &&& kept == tokens
                    &&& w.opens(t, sid)
                    &&& tokens.contains((t, w.token_map[t].1))
                    &&& w.sessions[sid].is_temporary
                },
                Err(_) => w == v,
            }
        }),
{
    let (w, r) = v.register_existing(tokens, desired, fresh_id);
    if let Ok((sid, kept)) = r {
        lemma_bind_tokens(v.remove(sid).token_map, sid, tokens);
    }
}

/// A session that no token of an agent opens is not given up to that agent.
pub proof fn taken_id_is_refused(
    v: RegistryView,
    tokens: Tokens,
    id: Seq<char>,
    fresh_id: Seq<char>,
)
    requires
        v.sessions.contains_key(id),
        valid_custom_id(id),
        !v.opened_by(id, tokens),
    ensures
        v.register_existing(tokens, Some(id), fresh_id) == (
            v,
            Err::<(Seq<char>, Tokens), RegisterError>(RegisterError::IdTaken),
        ),
{
}

/// Once a session is removed no token opens it, and its tokens open nothing.
pub proof fn removed_session_is_closed(v: RegistryView, sid: Seq<char>, t: Seq<char>)
    requires
        v.valid(),
    ensures
        !v.remove(sid).sessions.contains_key(sid),
        !v.remove(sid).opens(t, sid),
        v.sessions.contains_key(sid) && lists(v.sessions[sid].tokens, t) ==> v.remove(
            sid,
        ).authenticate(t) is None,
        v.sessions.contains_key(sid) && !lists(v.sessions[sid].tokens, t) ==> v.remove(
            sid,
        ).authenticate(t) == v.authenticate(t),
{
    remove_keeps_valid(v, sid);
    let w = v.remove(sid);
    if w.token_map.contains_key(t) {
        assert(w.sessions.contains_key(w.token_map[t].0));
    }
}

/// A revoked token opens nothing, and every other token opens what it opened.
pub proof fn revoked_token_is_closed(v: RegistryView, t: Seq<char>, u: Seq<char>)
    requires
        v.valid(),
    ensures
        v.revoke_token(t).authenticate(t) is None,
        u != t ==> v.revoke_token(t).authenticate(u) == v.authenticate(u),
        forall|sid: Seq<char>| #[trigger]
            v.opens(t, sid) ==> !lists(v.revoke_token(t).sessions[sid].tokens, t),
{
    let w = v.revoke_token(t);
    assert forall|sid: Seq<char>| #[trigger]
        v.opens(t, sid) implies !lists(w.sessions[sid].tokens, t) by {
        let keep = not_token(t);
        let kept = v.sessions[sid].tokens.filter(keep);
        lemma_filter(v.sessions[sid].tokens, keep);
        if lists(kept, t) {
            let i = choose|i: int| 0 <= i < kept.len() && (#[trigger] kept[i]).0 == t;
            assert(kept.contains(kept[i]));
        }
    }
}

/// Regenerated tokens keep the permission slots of the session and open it; the old tokens open
/// nothing, unless chance drew one of them again. A fixed key gives way to the first new token, and
/// the session is as temporary as it was.
pub proof fn regenerated_tokens_open(
    v: RegistryView,
    sid: Seq<char>,
    fresh: Seq<Seq<char>>,
    i: int,
    t: Seq<char>,
)
    requires
        v.valid(),
        v.slots(sid) > 0,
        fresh.len() == v.slots(sid),
        fresh.no_duplicates(),
        0 <= i < fresh.len(),
    ensures
        ({
            let (w, r) = v.regenerate_session(sid, fresh);
            let old_tokens = v.sessions[sid].tokens;
            &&& r is Some
            &&& r->0.len() == old_tokens.len()
            &&& r->0[i] == (fresh[i], old_tokens[i].1)
            &&& w.authenticate(fresh[i]) == Some((sid, old_tokens[i].1))
            &&& lists(old_tokens, t) && !fresh.contains(t) ==> w.authenticate(t) is None
            &&& w.sessions[sid].tags == v.sessions[sid].tags
            &&& w.sessions[sid].is_temporary == v.sessions[sid].is_temporary
            &&& w.sessions[sid].fixed_key == match v.sessions[sid].fixed_key {
                Some(_) => Some(fresh[0]),
                None => None,
            }
        }),
{
    let (w, r) = v.regenerate_session(sid, fresh);
    let s = v.sessions[sid];
    let tokens = refreshed(s.tokens, fresh);
    lemma_bind_tokens(v.remove(sid).token_map, sid, tokens);
    assert(tokens[i] == (fresh[i], s.tokens[i].1));
    assert(lists(tokens, fresh[i]));
    let p = w.token_map[fresh[i]].1;
    let k = choose|k: int| 0 <= k < tokens.len() && tokens[k] == (fresh[i], p);
    assert(fresh[k] == fresh[i]);
    if lists(s.tokens, t) && !fresh.contains(t) {
        assert(!lists(tokens, t)) by {
            if lists(tokens, t) {
                let j = choose|j: int| 0 <= j < tokens.len() && (#[trigger] tokens[j]).0 == t;
                assert(fresh[j] == t);
            }
        }
    }
}

/// A known token allows what it was set to allow, and no other token's session or permission
/// changes.
pub proof fn set_permission_takes_effect(
    v: RegistryView,
    t: Seq<char>,
    p: Permission,
    u: Seq<char>,
)
    requires
        v.valid(),
        v.authenticate(t) is Some,
    ensures
        v.set_token_permission(t, p).authenticate(t) == Some((v.token_map[t].0, p)),
        u != t ==> v.set_token_permission(t, p).authenticate(u) == v.authenticate(u),
{
}

/// Setting a permission and then setting it back restores what the tokens open, and the whole
/// registry where the session lists the token once.
pub proof fn set_permission_back(v: RegistryView, t: Seq<char>, p: Permission)
    requires
        v.valid(),
        v.authenticate(t) is Some,
    ensures
        ({
            let (sid, q) = v.authenticate(t)->0;
            let w = v.set_token_permission(t, p).set_token_permission(t, q);
            &&& w.token_map == v.token_map
            &&& (forall|i: int, j: int|
                0 <= i < v.sessions[sid].tokens.len() && 0 <= j < v.sessions[sid].tokens.len()
                    && (#[trigger] v.sessions[sid].tokens[i]).0 == t && (
                #[trigger] v.sessions[sid].tokens[j]).0 == t ==> i == j) ==> w == v
        }),
{
    assert(v.token_map.contains_key(t));
    let (sid, q) = v.token_map[t];
    let w1 = v.set_token_permission(t, p);
    let w = w1.set_token_permission(t, q);
    assert(w.token_map =~= v.token_map);
    let s = v.sessions[sid];
    let a = with_permission(s.tokens, t, p);
    let b = with_permission(a, t, q);
    if forall|i: int, j: int|
        0 <= i < s.tokens.len() && 0 <= j < s.tokens.len() && (#[trigger] s.tokens[i]).0 == t && (
        #[trigger] s.tokens[j]).0 == t ==> i == j {
        let k = choose|k: int| 0 <= k < s.tokens.len() && s.tokens[k] == (t, q);
        assert(s.tokens[k].0 == t);
        assert forall|i: int| 0 <= i < s.tokens.len() implies b[i] == s.tokens[i] by {
            if i != k {
                assert(s.tokens[i].0 != t);
                assert(a[i] == s.tokens[i]);
                assert(b[i] == a[i]);
            } else {
                assert forall|j: int| 0 <= j < k implies (#[trigger] a[j]).0 != t by {
                    assert(s.tokens[j].0 != t);
                }
                assert(b[k] == (t, q));
            }
        }
        assert(b =~= s.tokens);
        assert(w.sessions =~= v.sessions);
    }
}

/// Tagging twice is tagging once, and a tag that was put on is there.
pub proof fn add_tag_idempotent(v: RegistryView, sid: Seq<char>, tag: Seq<char>)
    requires
        v.add_tag(sid, tag).1,
    ensures
        v.add_tag(sid, tag).0.add_tag(sid, tag) == v.add_tag(sid, tag),
        v.add_tag(sid, tag).0.sessions[sid].tags.contains(trimmed(tag)),
{
    let w = v.add_tag(sid, tag).0;
    let label = trimmed(tag);
    let tags = v.sessions[sid].tags;
    if !tags.contains(label) {
        assert(tags.push(label)[tags.len() as int] == label);
    }
    assert(w.add_tag(sid, tag).0 =~= w);
}

/// A tag that was taken off is gone, and the others stay.
pub proof fn removed_tag_is_gone(v: RegistryView, sid: Seq<char>, tag: Seq<char>, other: Seq<char>)
    requires
        v.sessions.contains_key(sid),
    ensures
        !v.remove_tag(sid, tag).0.sessions[sid].tags.contains(trimmed(tag)),
        other != trimmed(tag) ==> v.remove_tag(sid, tag).0.sessions[sid].tags.contains(other)
            == v.sessions[sid].tags.contains(other),
{
    lemma_filter(v.sessions[sid].tags, other_than(trimmed(tag)));
}

} // verus!
