//! The bounded queues that carry messages to agents and browsers.
use std::collections::VecDeque;
use vstd::prelude::*;

use crate::json::{Json, JsonView};
use crate::text::str_eq;

verus! {

/// How many messages wait for one agent or browser at most.
pub const SSE_CHANNEL_CAPACITY: usize = 256;

/// The messages that wait for one agent or browser, oldest first.
pub struct MessageQueue {
    items: VecDeque<Json>,
}

pub open spec fn docs_view(s: Seq<Json>) -> Seq<JsonView> {
    s.map_values(|j: Json| j@)
}

/// A message that may be lost: terminal output.
pub open spec fn lossy(m: JsonView) -> bool {
    m.str_field("type"@) == Some("terminal:output"@)
}

/// The place of the oldest message that may be lost; the length where there is none.
pub open spec fn first_lossy(q: Seq<JsonView>) -> nat
    decreases q.len(),
{
    if q.len() == 0 || lossy(q[0]) {
        0
    } else {
        1 + first_lossy(q.skip(1))
    }
}

/// The queue after a message was delivered. A full queue drops terminal output: the message, if it
/// is that, or else the oldest in the queue. Where it holds none, the message is dropped.
pub open spec fn delivered(q: Seq<JsonView>, m: JsonView) -> Seq<JsonView> {
    if q.len() < SSE_CHANNEL_CAPACITY {
        q.push(m)
    } else if lossy(m) || first_lossy(q) == q.len() {
        q
    } else {
        q.remove(first_lossy(q) as int).push(m)
    }
}

/// The messages that may not be lost.
pub open spec fn control(q: Seq<JsonView>) -> Seq<JsonView> {
    q.filter(|m: JsonView| !lossy(m))
}

proof fn lemma_first_lossy(q: Seq<JsonView>)
    ensures
        first_lossy(q) <= q.len(),
        first_lossy(q) < q.len() ==> lossy(q[first_lossy(q) as int]),
        forall|i: int| 0 <= i < first_lossy(q) ==> !lossy(#[trigger] q[i]),
    decreases q.len(),
{
    if q.len() > 0 && !lossy(q[0]) {
        lemma_first_lossy(q.skip(1));
        assert forall|i: int| 0 <= i < first_lossy(q) implies !lossy(#[trigger] q[i]) by {
            if i > 0 {
                assert(q[i] == q.skip(1)[i - 1]);
            }
        }
    }
}

pub proof fn lemma_first_lossy_at(q: Seq<JsonView>, k: int)
    requires
        0 <= k <= q.len(),
        k < q.len() ==> lossy(q[k]),
        forall|i: int| 0 <= i < k ==> !lossy(#[trigger] q[i]),
    ensures
        first_lossy(q) == k,
{
    lemma_first_lossy(q);
    let f = first_lossy(q) as int;
    if f < k {
        assert(!lossy(q[f]));
    }
    if k < f {
        assert(!lossy(q[k]));
    }
}

/// A queue never grows past its capacity.
pub proof fn delivery_is_bounded(q: Seq<JsonView>, m: JsonView)
    requires
        q.len() <= SSE_CHANNEL_CAPACITY,
    ensures
        delivered(q, m).len() <= SSE_CHANNEL_CAPACITY,
{
    lemma_first_lossy(q);
}

/// Delivery keeps every queued message that may not be lost, in order, and adds one that may not be
/// lost unless the queue is full of such messages.
pub proof fn delivery_keeps_control(q: Seq<JsonView>, m: JsonView)
    requires
        q.len() <= SSE_CHANNEL_CAPACITY,
    ensures
        lossy(m) ==> control(delivered(q, m)) == control(q),
        !lossy(m) && control(q).len() < SSE_CHANNEL_CAPACITY ==> control(delivered(q, m))
            == control(q).push(m),
        !lossy(m) && control(q).len() == SSE_CHANNEL_CAPACITY ==> delivered(q, m) == q,
{
    let c = |x: JsonView| !lossy(x);
    lemma_first_lossy(q);
    crate::seqs::lemma_filter_push(q, m, c);
    let k = first_lossy(q) as int;
    if k == q.len() {
        lemma_all_control(q);
    } else {
        let rest = q.remove(k);
        crate::seqs::lemma_filter_push(rest, m, c);
        lemma_filter_remove(q, k);
        rest.lemma_filter_len(c);
    }
}

/// Messages come in the order in which they were delivered: while there is room, it does not matter
/// whether the oldest is taken before or after another is delivered.
pub proof fn order_is_kept(q: Seq<JsonView>, m: JsonView)
    requires
        q.len() < SSE_CHANNEL_CAPACITY,
    ensures
        q.len() == 0 ==> delivered(q, m) == seq![m],
        q.len() > 0 ==> delivered(q, m)[0] == q[0] && delivered(q, m).skip(1) == delivered(
            q.skip(1),
            m,
        ),
{
    if q.len() > 0 {
        assert(q.push(m).skip(1) =~= q.skip(1).push(m));
    } else {
        assert(q.push(m) =~= seq![m]);
    }
}

proof fn lemma_all_control(q: Seq<JsonView>)
    requires
        forall|i: int| 0 <= i < q.len() ==> !lossy(#[trigger] q[i]),
    ensures
        control(q) == q,
    decreases q.len(),
{
    reveal(Seq::filter);
    if q.len() > 0 {
        let init = q.drop_last();
        assert forall|i: int| 0 <= i < init.len() implies !lossy(#[trigger] init[i]) by {
            assert(init[i] == q[i]);
        }
        lemma_all_control(init);
        assert(!lossy(q[q.len() - 1]));
        assert(init.push(q.last()) =~= q);
    }
}

proof fn lemma_filter_remove(q: Seq<JsonView>, k: int)
    requires
        0 <= k < q.len(),
        lossy(q[k]),
    ensures
        control(q.remove(k)) == control(q),
    decreases q.len(),
{
    reveal(Seq::filter);
    if k == q.len() - 1 {
        assert(q.remove(k) =~= q.drop_last());
    } else {
        lemma_filter_remove(q.drop_last(), k);
        assert(q.remove(k).drop_last() =~= q.drop_last().remove(k));
        assert(q.remove(k).last() == q.last());
    }
}

impl View for MessageQueue {
    type V = Seq<JsonView>;

    closed spec fn view(&self) -> Seq<JsonView> {
        docs_view(self.items@)
    }
}

fn is_lossy(m: &Json) -> (r: bool)
    ensures
        r == lossy(m@),
{
    match m.str_field("type") {
        Some(t) => str_eq(t, "terminal:output"),
        None => false,
    }
}

impl MessageQueue {
    #[verifier::type_invariant]
    spec fn inv(self) -> bool {
        self.items@.len() <= SSE_CHANNEL_CAPACITY
    }

    pub fn new() -> (q: Self)
        ensures
            q@ == Seq::<JsonView>::empty(),
    {
        let q = MessageQueue { items: VecDeque::new() };
        assert(q@ =~= Seq::<JsonView>::empty());
        q
    }

    /// How many messages wait.
    pub fn len(&self) -> (n: usize)
        ensures
            n == self@.len(),
            n <= SSE_CHANNEL_CAPACITY,
    {
        proof {
            use_type_invariant(self);
        }
        self.items.len()
    }

    /// Delivers a message. A full queue drops terminal output first.
    pub fn deliver(&mut self, m: Json)
        ensures
            final(self)@ == delivered(old(self)@, m@),
    {
        let ghost q = self@;
        proof {
            use_type_invariant(&*self);
        }
        let mut items: VecDeque<Json> = VecDeque::new();
        std::mem::swap(&mut items, &mut self.items);
        let ghost before = items@;
        if items.len() < SSE_CHANNEL_CAPACITY {
            let ghost doc = m@;
            items.push_back(m);
            assert(docs_view(items@) =~= q.push(doc));
        } else if !is_lossy(&m) {
            let mut k: usize = 0;
            let n = items.len();
            while k < n && !is_lossy(&items[k])
                invariant
                    k <= n,
                    n == items@.len(),
                    q == docs_view(items@),
                    forall|i: int| 0 <= i < k ==> !lossy(#[trigger] q[i]),
                decreases n - k,
            {
                k = k + 1;
            }
            proof {
                if k < n {
                    assert(lossy(q[k as int]));
                }
                lemma_first_lossy_at(q, k as int);
            }
            if k < n {
                let ghost doc = m@;
                let _ = items.remove(k);
                items.push_back(m);
                assert(docs_view(items@) =~= q.remove(k as int).push(doc));
            }
        }
        self.items = items;
    }

    /// Delivers a message where there is room, and says whether there was.
    pub fn offer(&mut self, m: Json) -> (r: bool)
        ensures
            r == (old(self)@.len() < SSE_CHANNEL_CAPACITY),
            r ==> final(self)@ == old(self)@.push(m@),
            !r ==> final(self)@ == old(self)@,
    {
        if self.items.len() < SSE_CHANNEL_CAPACITY {
            self.deliver(m);
            true
        } else {
            false
        }
    }

    /// Takes the oldest message.
    pub fn pop(&mut self) -> (r: Option<Json>)
        ensures
            match r {
                Some(m) => old(self)@.len() > 0 && m@ == old(self)@[0] && final(self)@ == old(
                    self,
                )@.skip(1),
                None => old(self)@.len() == 0 && final(self)@ == old(self)@,
            },
    {
        proof {
            use_type_invariant(&*self);
        }
        let ghost q = self@;
        let mut items: VecDeque<Json> = VecDeque::new();
        std::mem::swap(&mut items, &mut self.items);
        let r = items.pop_front();
        proof {
            if r is Some {
                assert(docs_view(items@) =~= q.skip(1));
            }
        }
        self.items = items;
        r
    }
}

} // verus!
