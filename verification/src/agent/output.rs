//! Terminal output on its way to the relay: what a tab writes in a short time goes out together.
use vstd::prelude::*;

use crate::agent::fs::encodable;
use crate::agent::session::{make_output_message, output_message};
use crate::outside::base64_size;
use crate::proto::{Message, MessageView};
use crate::strmap::{lookup, put, StrMap};

verus! {

/// The output that waits, by tab.
pub type Pending = Seq<(Seq<char>, Seq<u8>)>;

/// The output of the tabs that has not been sent yet.
pub struct OutputBuffer {
    pending: StrMap<Vec<u8>>,
}

impl View for OutputBuffer {
    type V = Pending;

    closed spec fn view(&self) -> Pending {
        self.pending.entries()
    }
}

/// What waits for a tab.
pub open spec fn waiting(p: Pending, tab: Seq<char>) -> Seq<u8> {
    match lookup(p, tab) {
        Some(d) => d,
        None => Seq::empty(),
    }
}

/// The output that waits after a tab wrote more.
pub open spec fn added(p: Pending, tab: Seq<char>, data: Seq<u8>) -> Pending {
    put(p, tab, waiting(p, tab) + data)
}

/// The messages that carry the waiting output: one for each tab that wrote something.
pub open spec fn flushed(p: Pending, sid: Seq<char>) -> Seq<MessageView>
    decreases p.len(),
{
    if p.len() == 0 {
        Seq::empty()
    } else {
        let before = flushed(p.drop_last(), sid);
        let (tab, data) = p.last();
        if data.len() == 0 {
            before
        } else {
            before.push(output_message(sid, tab, data, None))
        }
    }
}

pub open spec fn messages_view(v: Seq<Message>) -> Seq<MessageView> {
    v.map_values(|m: Message| m@)
}

/// Whether one message can carry some bytes on this machine.
pub open spec fn carriable(n: nat) -> bool {
    base64_size(n) <= isize::MAX
}

pub open spec fn pending_bounded(m: Map<Seq<char>, Seq<u8>>) -> bool {
    forall|tab: Seq<char>| #[trigger] m.contains_key(tab) ==> carriable(m[tab].len())
}

impl OutputBuffer {
    #[verifier::type_invariant]
    spec fn inv(self) -> bool {
        pending_bounded(self.pending@)
    }

    pub fn new() -> (b: Self)
        ensures
            b@ == Seq::<(Seq<char>, Seq<u8>)>::empty(),
    {
        OutputBuffer { pending: StrMap::new() }
    }

    /// Adds what a tab wrote. It is taken, unless more would wait than a message can carry on this
    /// machine.
    pub fn push(&mut self, tab_id: &str, data: &Vec<u8>) -> (taken: bool)
        ensures
            taken == carriable(waiting(old(self)@, tab_id@).len() + data@.len()),
            final(self)@ == if taken {
                added(old(self)@, tab_id@, data@)
            } else {
                old(self)@
            },
    {
        proof {
            use_type_invariant(&*self);
        }
        let ghost m = self.pending@;
        let ghost p = self@;
        let mut all: Vec<u8> = Vec::new();
        if let Some(d) = self.pending.get(tab_id) {
            if data.len() > usize::MAX - d.len() || !encodable(d.len() + data.len()) {
                return false;
            }
            let mut i: usize = 0;
            while i < d.len()
                invariant
                    i <= d@.len(),
                    all@ == d@.take(i as int),
                decreases d@.len() - i,
            {
                all.push(d[i]);
                assert(d@.take(i as int).push(d@[i as int]) =~= d@.take(i + 1));
                i = i + 1;
            }
            assert(d@.take(d@.len() as int) =~= d@);
        } else if !encodable(data.len()) {
            return false;
        }
        assert(all@ == waiting(p, tab_id@));
        let ghost before = all@;
        let mut k: usize = 0;
        assert(before + data@.take(0) =~= before);
        while k < data.len()
            invariant
                k <= data@.len(),
                all@ == before + data@.take(k as int),
            decreases data@.len() - k,
        {
            all.push(data[k]);
            assert(data@.take(k as int).push(data@[k as int]) =~= data@.take(k + 1));
            assert(all@ =~= before + data@.take(k + 1));
            k = k + 1;
        }
        assert(data@.take(data@.len() as int) =~= data@);
        let mut pending: StrMap<Vec<u8>> = StrMap::new();
        std::mem::swap(&mut pending, &mut self.pending);
        pending.insert(tab_id.to_owned(), all);
        assert(pending_bounded(pending@)) by {
            assert forall|tab: Seq<char>| #[trigger]
                pending@.contains_key(tab) implies carriable(pending@[tab].len()) by {
                if tab != tab_id@ {
                    assert(m.contains_key(tab));
                }
            }
        }
        self.pending = pending;
        true
    }

    /// Takes the waiting output, as the messages that carry it.
    pub fn flush(&mut self, session_id: &str) -> (r: Vec<Message>)
        ensures
            messages_view(r@) == flushed(old(self)@, session_id@),
            final(self)@ == Seq::<(Seq<char>, Seq<u8>)>::empty(),
    {
        proof {
            use_type_invariant(&*self);
        }
        let ghost all = self@;
        let mut pending: StrMap<Vec<u8>> = StrMap::new();
        std::mem::swap(&mut pending, &mut self.pending);
        let n = pending.len();
        let mut r: Vec<Message> = Vec::new();
        let mut i: usize = 0;
        assert(all.take(0) =~= Seq::<(Seq<char>, Seq<u8>)>::empty());
        assert(messages_view(r@) =~= Seq::<MessageView>::empty());
        while i < n
            invariant
                i <= n,
                n == all.len(),
                n == pending.keys().len(),
                all == pending.entries(),
                pending_bounded(pending@),
                forall|j: int|
                    0 <= j < n ==> (#[trigger] all[j]) == (
                        pending.keys()[j],
                        pending@[pending.keys()[j]],
                    ),
                messages_view(r@) == flushed(all.take(i as int), session_id@),
            decreases n - i,
        {
            let tab = pending.key_at(i);
            let data = pending.value_at(i);
            assert(all.take(i + 1).drop_last() =~= all.take(i as int));
            assert(all.take(i + 1).last() == (tab@, data@));
            if data.len() > 0 {
                let ghost before = messages_view(r@);
                assert(carriable(data@.len()));
                let m = make_output_message(session_id, tab.as_str(), data, &None);
                r.push(m);
                assert(messages_view(r@) =~= before.push(
                    output_message(session_id@, tab@, data@, None),
                ));
            }
            i = i + 1;
        }
        assert(all.take(n as int) =~= all);
        r
    }
}

/// What waits for a tab is all that it wrote, in order, and other tabs are not touched.
pub proof fn output_coalesces(
    p: Pending,
    tab: Seq<char>,
    a: Seq<u8>,
    b: Seq<u8>,
    other: Seq<char>,
)
    requires
        other != tab,
    ensures
        waiting(added(added(p, tab, a), tab, b), tab) == waiting(p, tab) + a + b,
        waiting(added(p, tab, a), other) == waiting(p, other),
{
    lemma_put_lookup(p, tab, waiting(p, tab) + a, tab);
    lemma_put_lookup(p, tab, waiting(p, tab) + a, other);
    let q = added(p, tab, a);
    lemma_put_lookup(q, tab, waiting(q, tab) + b, tab);
}

proof fn lemma_put_lookup(p: Pending, k: Seq<char>, v: Seq<u8>, q: Seq<char>)
    ensures
        lookup(put(p, k, v), q) == if q == k {
            Some(v)
        } else {
            lookup(p, q)
        },
{
    if crate::strmap::has_key(p, k) {
        lemma_update_lookup(p, k, v, q);
        assert(put(p, k, v) =~= updated(p, k, v));
        crate::strmap::lemma_lookup_has_key(p, k);
    } else {
        assert(put(p, k, v).drop_last() =~= p);
    }
}

spec fn updated(p: Pending, k: Seq<char>, v: Seq<u8>) -> Pending {
    Seq::new(
        p.len(),
        |i: int|
            if p[i].0 == k {
                (k, v)
            } else {
                p[i]
            },
    )
}

proof fn lemma_update_lookup(p: Pending, k: Seq<char>, v: Seq<u8>, q: Seq<char>)
    ensures
        lookup(updated(p, k, v), q) == if q == k && lookup(p, k) is Some {
            Some(v)
        } else {
            lookup(p, q)
        },
    decreases p.len(),
{
    if p.len() > 0 {
        lemma_update_lookup(p.drop_last(), k, v, q);
        assert(updated(p, k, v).drop_last() =~= updated(p.drop_last(), k, v));
    }
}

} // verus!
