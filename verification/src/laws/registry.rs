//! Sessions and the tokens that open them.
use vstd::prelude::*;

use crate::proto::{valid_custom_id, Permission};
use crate::relay::session::{
    lists, not_token, registered_tokens_open, FreshView, RegisterError, RegistryView, Tokens,
};
use crate::text::trimmed;

verus! {

/// A session id of one's own choice has five to twenty ASCII letters and digits, and nothing else.
pub proof fn own_ids_are_letters_and_digits(id: Seq<char>)
    ensures
        valid_custom_id(id) <==> (5 <= id.len() <= 20 && forall|i: int|
            0 <= i < id.len() ==> {
                let c = #[trigger] id[i];
                'a' <= c <= 'z' || 'A' <= c <= 'Z' || '0' <= c <= '9'
            }),
{
}

/// A session that asks for no id gets the one that was drawn; one that asks for a free and valid id
/// gets it. It then has the tokens of its type: the key it brought, or else the drawn token, with
/// write permission, or for `ro` with read permission; for `both` a drawn read-only token too. Each
/// opens the session with its permission. It is temporary unless it brought a key.
pub proof fn registration_gives_its_tokens(
    v: RegistryView,
    key: Option<Seq<char>>,
    token_type: Seq<char>,
    desired: Option<Seq<char>>,
    fresh: FreshView,
)
    requires
        v.valid(),
        desired matches Some(id) ==> valid_custom_id(id) && !v.sessions.contains_key(id),
        desired is None ==> !v.sessions.contains_key(fresh.session_id),
        fresh.ro_token != fresh.rw_token,
        key != Some(fresh.ro_token),
    ensures
        ({
            let (w, r) = v.register(key, token_type, desired, fresh);
            let sid = match desired {
                Some(id) => id,
                None => fresh.session_id,
            };
            let main = match key {
                Some(k) => k,
                None => fresh.rw_token,
            };
            let tokens = if token_type == "both"@ {
                seq![(main, Permission::ReadWrite), (fresh.ro_token, Permission::ReadOnly)]
            } else if token_type == "ro"@ {
                seq![(main, Permission::ReadOnly)]
            } else {
                seq![(main, Permission::ReadWrite)]
            };
            &&& r == Ok::<(Seq<char>, Tokens), RegisterError>((sid, tokens))
            &&& w.sessions.contains_key(sid)
            &&& w.sessions[sid].tokens == tokens
            &&& w.sessions[sid].fixed_key == key
            &&& w.sessions[sid].is_temporary == (key is None)
            &&& w.sessions[sid].tags.len() == 0
            &&& w.authenticate(main) == Some((sid, tokens[0].1))
            &&& token_type == "both"@ ==> w.authenticate(fresh.ro_token) == Some(
                (sid, Permission::ReadOnly),
            )
        }),
{
    let (w, r) = v.register(key, token_type, desired, fresh);
    let main = match key {
        Some(k) => k,
        None => fresh.rw_token,
    };
    if let Ok((sid, tokens)) = r {
        assert(tokens[0].0 == main);
        assert(lists(tokens, main));
        registered_tokens_open(v, key, token_type, desired, fresh, main);
        if token_type == "both"@ {
            assert(tokens[1].0 == fresh.ro_token);
            assert(lists(tokens, fresh.ro_token));
            registered_tokens_open(v, key, token_type, desired, fresh, fresh.ro_token);
        }
    }
}

/// An id that is not valid, and one that another session holds, is refused, and nothing changes.
pub proof fn bad_ids_are_refused(
    v: RegistryView,
    key: Option<Seq<char>>,
    token_type: Seq<char>,
    id: Seq<char>,
    fresh: FreshView,
    tokens: Tokens,
)
    ensures
        !valid_custom_id(id) ==> {
            &&& v.register(key, token_type, Some(id), fresh) == (
                v,
                Err::<(Seq<char>, Tokens), RegisterError>(RegisterError::InvalidId),
            )
            &&& v.register_existing(tokens, Some(id), fresh.session_id) == (
                v,
                Err::<(Seq<char>, Tokens), RegisterError>(RegisterError::InvalidId),
            )
        },
        valid_custom_id(id) && v.sessions.contains_key(id) ==> v.register(
            key,
            token_type,
            Some(id),
            fresh,
        ) == (v, Err::<(Seq<char>, Tokens), RegisterError>(RegisterError::IdTaken)),
{
}

/// An agent that comes back with its tokens gets the session it asks for, where nobody holds it or
/// one of its tokens opens it, with those tokens and no others.
pub proof fn agent_comes_back(
    v: RegistryView,
    tokens: Tokens,
    desired: Option<Seq<char>>,
    fresh_id: Seq<char>,
    i: int,
)
    requires
        0 <= i < tokens.len(),
        desired matches Some(id) ==> valid_custom_id(id),
        ({
            let sid = match desired {
                Some(id) => id,
                None => fresh_id,
            };
            !v.sessions.contains_key(sid) || v.authenticate(tokens[i].0) is Some && (v.authenticate(
                tokens[i].0,
            )->0).0 == sid
        }),
    ensures
        ({
            let sid = match desired {
                Some(id) => id,
                None => fresh_id,
            };
            let (w, r) = v.register_existing(tokens, desired, fresh_id);
            &&& r == Ok::<(Seq<char>, Tokens), RegisterError>((sid, tokens))
            &&& w.sessions.contains_key(sid)
            &&& w.sessions[sid].tokens == tokens
            &&& w.sessions[sid].fixed_key is None && w.sessions[sid].is_temporary
            &&& w.sessions.remove(sid) == v.sessions.remove(sid)
        }),
{
    let sid = match desired {
        Some(id) => id,
        None => fresh_id,
    };
    if v.sessions.contains_key(sid) {
        assert(v.opens(tokens[i].0, sid));
        assert(v.opened_by(sid, tokens));
    }
    let w = v.register_existing(tokens, desired, fresh_id).0;
    assert(w.sessions.remove(sid) =~= v.sessions.remove(sid));
}

/// A session that none of an agent's tokens opens is not given up to the agent, whatever else the
/// tokens open.
pub proof fn held_session_is_kept(
    v: RegistryView,
    tokens: Tokens,
    id: Seq<char>,
    fresh_id: Seq<char>,
)
    requires
        valid_custom_id(id),
        v.sessions.contains_key(id),
        forall|i: int|
            0 <= i < tokens.len() ==> match v.authenticate((#[trigger] tokens[i]).0) {
                Some((at, _)) => at != id,
                None => true,
            },
    ensures
        v.register_existing(tokens, Some(id), fresh_id) == (
            v,
            Err::<(Seq<char>, Tokens), RegisterError>(RegisterError::IdTaken),
        ),
{
    assert(!v.opened_by(id, tokens));
}

/// Removing a session leaves the others as they are.
pub proof fn others_stay(v: RegistryView, sid: Seq<char>, other: Seq<char>)
    requires
        other != sid,
    ensures
        v.remove(sid).sessions.contains_key(other) == v.sessions.contains_key(other),
        v.sessions.contains_key(other) ==> v.remove(sid).sessions[other] == v.sessions[other],
{
}

/// A session whose token is revoked keeps its other tokens, its key, its labels and whether it is
/// temporary; the other sessions stay as they are.
pub proof fn revoking_keeps_the_rest(
    v: RegistryView,
    t: Seq<char>,
    sid: Seq<char>,
    p: Permission,
    u: Seq<char>,
    q: Permission,
    other: Seq<char>,
)
    requires
        v.valid(),
        v.authenticate(t) == Some((sid, p)),
        u != t,
        other != sid,
    ensures
        ({
            let w = v.revoke_token(t);
            &&& w.sessions.contains_key(sid)
            &&& w.sessions[sid].tokens.contains((u, q)) == v.sessions[sid].tokens.contains((u, q))
            &&& w.sessions[sid].fixed_key == v.sessions[sid].fixed_key
            &&& w.sessions[sid].is_temporary == v.sessions[sid].is_temporary
            &&& w.sessions[sid].tags == v.sessions[sid].tags
            &&& w.sessions.contains_key(other) == v.sessions.contains_key(other)
            &&& v.sessions.contains_key(other) ==> w.sessions[other] == v.sessions[other]
        }),
{
    assert(v.token_map.contains_key(t));
    let keep = not_token(t);
    let kept = v.sessions[sid].tokens.filter(keep);
    crate::seqs::lemma_filter(v.sessions[sid].tokens, keep);
    assert(v.sessions.contains_key(sid));
    assert(v.revoke_token(t).sessions[sid].tokens =~= kept);
    assert(kept.contains((u, q)) <==> v.sessions[sid].tokens.contains((u, q)) && keep((u, q)));
}

/// A token whose permission is set is listed with it, where it was; the session's other tokens, its
/// key and its labels stay.
pub proof fn permission_is_listed(
    v: RegistryView,
    t: Seq<char>,
    p: Permission,
    sid: Seq<char>,
    q: Permission,
    i: int,
)
    requires
        v.valid(),
        v.authenticate(t) == Some((sid, q)),
        0 <= i < v.sessions[sid].tokens.len(),
        forall|j: int|
            0 <= j < v.sessions[sid].tokens.len() && j != i ==> (
            #[trigger] v.sessions[sid].tokens[j]).0 != v.sessions[sid].tokens[i].0,
    ensures
        ({
            let w = v.set_token_permission(t, p);
            let before = v.sessions[sid];
            &&& w.sessions.contains_key(sid)
            &&& w.sessions[sid].tokens.len() == before.tokens.len()
            &&& before.tokens[i].0 == t ==> w.sessions[sid].tokens[i] == (t, p)
            &&& before.tokens[i].0 != t ==> w.sessions[sid].tokens[i] == before.tokens[i]
            &&& w.sessions[sid].fixed_key == before.fixed_key && w.sessions[sid].is_temporary
                == before.is_temporary && w.sessions[sid].tags == before.tags
        }),
{
    assert(v.token_map.contains_key(t));
}

/// A label is put on a session that is known, without the white space around it, after those that
/// are there, and not twice. A blank label, or an unknown session, changes nothing. Nothing else of
/// the session changes, and no token.
pub proof fn label_is_put_on(v: RegistryView, sid: Seq<char>, tag: Seq<char>, other: Seq<char>)
    requires
        other != sid,
    ensures
        ({
            let (w, done) = v.add_tag(sid, tag);
            &&& done == (v.sessions.contains_key(sid) && trimmed(tag).len() > 0)
            &&& !done ==> w == v
            &&& done ==> {
                let before = v.sessions[sid];
                let after = w.sessions[sid];
                &&& before.tags.contains(trimmed(tag)) ==> after.tags == before.tags
                &&& !before.tags.contains(trimmed(tag)) ==> after.tags == before.tags.push(
                    trimmed(tag),
                )
                &&& after.tokens == before.tokens && after.fixed_key == before.fixed_key
                    && after.is_temporary == before.is_temporary
            }
            &&& w.token_map == v.token_map
            &&& w.sessions.contains_key(other) == v.sessions.contains_key(other)
            &&& v.sessions.contains_key(other) ==> w.sessions[other] == v.sessions[other]
        }),
        ({
            let (w, done) = v.remove_tag(sid, tag);
            &&& done == v.sessions.contains_key(sid)
            &&& !done ==> w == v
            &&& done ==> {
                let before = v.sessions[sid];
                let after = w.sessions[sid];
                after.tokens == before.tokens && after.fixed_key == before.fixed_key
                    && after.is_temporary == before.is_temporary
            }
            &&& w.token_map == v.token_map
            &&& w.sessions.contains_key(other) == v.sessions.contains_key(other)
            &&& v.sessions.contains_key(other) ==> w.sessions[other] == v.sessions[other]
        }),
{
}

/// Fresh tokens are given to a known session with tokens, and to no other.
pub proof fn only_known_sessions_are_renewed(
    v: RegistryView,
    sid: Seq<char>,
    fresh: Seq<Seq<char>>,
    other: Seq<char>,
)
    requires
        other != sid,
    ensures
        !v.sessions.contains_key(sid) || v.sessions[sid].tokens.len() == 0
            ==> v.regenerate_session(sid, fresh).0 == v && v.regenerate_session(sid, fresh).1
            is None,
        v.regenerate_session(sid, fresh).0.sessions.contains_key(other)
            == v.sessions.contains_key(other),
        v.sessions.contains_key(other) ==> v.regenerate_session(sid, fresh).0.sessions[other]
            == v.sessions[other],
{
}

} // verus!
