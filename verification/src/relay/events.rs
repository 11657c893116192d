//! The replay buffer of a session's events.
use std::collections::VecDeque;
use vstd::prelude::*;
use vstd::utf8::*;

use crate::seqs::lemma_filter_push;

verus! {

/// How many events a buffer holds at most.
pub const MAX_EVENT_BUFFER: usize = 1000;

/// How many bytes the events of a buffer hold together at most.
pub const MAX_EVENT_BUFFER_BYTES: usize = 8388608;

/// The events last sent to an agent, numbered from 1 in the order they came.
pub struct EventBuffer {
    next_id: u64,
    events: VecDeque<(u64, String)>,
    total_bytes: u128,
}

/// Numbered events.
pub type Events = Seq<(u64, Seq<char>)>;

pub struct EventsView {
    /// The number of the last event, 0 before the first.
    pub last_id: u64,
    pub events: Events,
}

pub open spec fn events_view(s: Seq<(u64, String)>) -> Events {
    s.map_values(|e: (u64, String)| (e.0, e.1@))
}

/// The bytes that the events hold together.
pub open spec fn event_bytes(events: Events) -> nat
    decreases events.len(),
{
    if events.len() == 0 {
        0
    } else {
        event_bytes(events.drop_last()) + encode_utf8(events.last().1).len()
    }
}

/// Whether the events are too many, or too large together.
pub open spec fn over_cap(events: Events) -> bool {
    event_bytes(events) > MAX_EVENT_BUFFER_BYTES || events.len() > MAX_EVENT_BUFFER
}

/// The events that stay: the oldest go while the rest are over a cap. An event that is over the cap
/// by itself does not stay.
pub open spec fn evict(events: Events) -> Events
    decreases events.len(),
{
    if events.len() > 0 && over_cap(events) {
        evict(events.skip(1))
    } else {
        events
    }
}

impl EventsView {
    pub open spec fn empty() -> EventsView {
        EventsView { last_id: 0, events: Seq::empty() }
    }

    /// The buffer after one more event.
    pub open spec fn push(self, msg: Seq<char>) -> EventsView {
        let id = (self.last_id + 1) as u64;
        EventsView { last_id: id, events: evict(self.events.push((id, msg))) }
    }

    /// The events after the one numbered `last_id`.
    pub open spec fn replay_from(self, last_id: u64) -> Events {
        self.events.filter(|e: (u64, Seq<char>)| e.0 > last_id)
    }

    /// The events are numbered without gaps up to the last, and keep the caps.
    pub open spec fn valid(self) -> bool {
        &&& self.events.len() <= self.last_id
        &&& forall|i: int|
            0 <= i < self.events.len() ==> (#[trigger] self.events[i]).0 == self.last_id
                - self.events.len() + 1 + i
        &&& !over_cap(self.events)
    }
}

proof fn lemma_bytes_front(events: Events)
    requires
        events.len() > 0,
    ensures
        event_bytes(events) == encode_utf8(events[0].1).len() + event_bytes(events.skip(1)),
    decreases events.len(),
{
    if events.len() == 1 {
        assert(events.skip(1) =~= Seq::<(u64, Seq<char>)>::empty());
        assert(events.drop_last() =~= Seq::<(u64, Seq<char>)>::empty());
    } else {
        lemma_bytes_front(events.drop_last());
        assert(events.skip(1).drop_last() =~= events.drop_last().skip(1));
    }
}

/// Whether an event fits a buffer by itself.
pub open spec fn fits(msg: Seq<char>) -> bool {
    encode_utf8(msg).len() <= MAX_EVENT_BUFFER_BYTES
}

/// Eviction leaves the newest events: what stays is within the caps, and the newest event stays if
/// it fits a buffer by itself; if it does not, none stays.
pub proof fn evict_keeps_newest(events: Events)
    ensures
        evict(events).len() <= events.len(),
        evict(events) == events.skip(events.len() - evict(events).len()),
        !over_cap(evict(events)),
        events.len() > 0 && fits(events.last().1) ==> evict(events).len() > 0
            && evict(events).last() == events.last(),
        events.len() > 0 && !fits(events.last().1) ==> evict(events).len() == 0,
    decreases events.len(),
{
    if events.len() > 0 && over_cap(events) {
        evict_keeps_newest(events.skip(1));
        let rest = evict(events.skip(1));
        assert(events.skip(1).skip(events.len() - 1 - rest.len()) =~= events.skip(
            events.len() - rest.len(),
        ));
        if events.len() == 1 {
            assert(events.drop_last() =~= Seq::<(u64, Seq<char>)>::empty());
            reveal_with_fuel(event_bytes, 2);
        } else {
            assert(events.skip(1).last() == events.last());
        }
    } else {
        assert(events.skip(0) =~= events);
    }
}

/// No event goes that the caps leave room for: the events that stay and the newest one that went
/// are over a cap together.
pub proof fn evict_is_tight(events: Events)
    ensures
        evict(events).len() < events.len() ==> over_cap(
            events.skip(events.len() - evict(events).len() - 1),
        ),
    decreases events.len(),
{
    if events.len() > 0 && over_cap(events) {
        let tail = events.skip(1);
        evict_is_tight(tail);
        evict_keeps_newest(tail);
        if evict(tail).len() < tail.len() {
            assert(tail.skip(tail.len() - evict(tail).len() - 1) =~= events.skip(
                events.len() - evict(tail).len() - 1,
            ));
        } else {
            assert(events.skip(0) =~= events);
        }
    }
}

/// Pushing keeps a buffer valid, and within its byte cap. The pushed event gets the next number, and
/// is the newest in the buffer if it fits one.
pub proof fn push_keeps_valid(v: EventsView, msg: Seq<char>)
    requires
        v.valid(),
        v.last_id < u64::MAX,
    ensures
        v.push(msg).valid(),
        v.push(msg).last_id == v.last_id + 1,
        event_bytes(v.push(msg).events) <= MAX_EVENT_BUFFER_BYTES,
        fits(msg) ==> v.push(msg).events.len() > 0 && v.push(msg).events.last() == (
            (v.last_id + 1) as u64,
            msg,
        ),
        !fits(msg) ==> v.push(msg).events.len() == 0,
{
    let all = v.events.push(((v.last_id + 1) as u64, msg));
    evict_keeps_newest(all);
    let kept = evict(all);
    let gone = all.len() - kept.len();
    assert forall|i: int| 0 <= i < kept.len() implies (#[trigger] kept[i]).0 == v.last_id + 1
        - kept.len() + 1 + i by {
        assert(kept[i] == all[gone + i]);
        if gone + i < v.events.len() {
            assert(all[gone + i] == v.events[gone + i]);
        }
    }
}

/// A replay gives the buffered events numbered after `last_id`, each once, in order: the newest
/// `v.last_id - last_id` of them, as far as they are still buffered.
pub proof fn replay_is_suffix(v: EventsView, last_id: u64)
    requires
        v.valid(),
    ensures
        ({
            let missing = if last_id >= v.last_id {
                0
            } else {
                v.last_id - last_id
            };
            let n = if missing < v.events.len() {
                missing
            } else {
                v.events.len() as int
            };
            v.replay_from(last_id) == v.events.skip(v.events.len() - n)
        }),
{
    let after = |e: (u64, Seq<char>)| e.0 > last_id;
    let first = v.last_id - v.events.len() + 1;
    let skip = if last_id < first {
        0
    } else if last_id - first + 1 > v.events.len() {
        v.events.len() as int
    } else {
        last_id - first + 1
    };
    lemma_filter_split(v.events, after, skip);
}

/// Filtering by a predicate that holds of a suffix and of nothing before it.
proof fn lemma_filter_split(events: Events, keep: spec_fn((u64, Seq<char>)) -> bool, k: int)
    requires
        0 <= k <= events.len(),
        forall|i: int| 0 <= i < k ==> !keep(#[trigger] events[i]),
        forall|i: int| k <= i < events.len() ==> keep(#[trigger] events[i]),
    ensures
        events.filter(keep) == events.skip(k),
    decreases events.len(),
{
    reveal(Seq::filter);
    if events.len() > 0 {
        let init = events.drop_last();
        assert forall|i: int| 0 <= i < k && i < init.len() implies !keep(#[trigger] init[i]) by {
            assert(init[i] == events[i]);
        }
        assert forall|i: int| k <= i < init.len() implies keep(#[trigger] init[i]) by {
            assert(init[i] == events[i]);
        }
        if k < events.len() {
            assert(keep(events[events.len() - 1]));
            lemma_filter_split(init, keep, k);
            assert(init.skip(k).push(events.last()) =~= events.skip(k));
        } else {
            assert(!keep(events[events.len() - 1]));
            lemma_filter_split(init, keep, k - 1);
            assert(init.skip(k - 1) =~= events.skip(k));
        }
    } else {
        assert(events.skip(k) =~= events);
    }
}

impl View for EventBuffer {
    type V = EventsView;

    closed spec fn view(&self) -> EventsView {
        EventsView { last_id: self.next_id, events: events_view(self.events@) }
    }
}

impl EventBuffer {
    #[verifier::type_invariant]
    spec fn inv(self) -> bool {
        &&& self@.valid()
        &&& self.total_bytes == event_bytes(self@.events)
    }

    pub fn new() -> (b: Self)
        ensures
            b@ == EventsView::empty(),
    {
        let b = EventBuffer { next_id: 0, events: VecDeque::new(), total_bytes: 0 };
        assert(b@.events =~= Seq::<(u64, Seq<char>)>::empty());
        b
    }

    /// The number of the last event, 0 before the first.
    pub fn last_id(&self) -> (id: u64)
        ensures
            id == self@.last_id,
            self@.valid(),
    {
        proof {
            use_type_invariant(self);
        }
        self.next_id
    }

    /// Buffers an event and returns its number. The oldest events go where a cap asks for it; an event
    /// that is over the byte cap by itself is numbered and not kept.
    pub fn push(&mut self, msg: String) -> (id: u64)
        requires
            old(self)@.last_id < u64::MAX,
        ensures
            id == old(self)@.last_id + 1,
            final(self)@ == old(self)@.push(msg@),
            final(self)@.valid(),
    {
        let ghost v = self@;
        proof {
            use_type_invariant(&*self);
            push_keeps_valid(v, msg@);
        }
        let mut taken = EventBuffer::new();
        std::mem::swap(&mut taken, self);
        let EventBuffer { next_id, events, total_bytes } = taken;
        let mut events = events;
        let id: u64 = next_id + 1;
        let len: usize = msg.as_str().as_bytes().len();
        let mut total: u128 = total_bytes + len as u128;
        let ghost all = v.events.push((id, msg@));
        events.push_back((id, msg));
        proof {
            assert(events_view(events@) =~= all);
            assert(all.drop_last() =~= v.events);
        }
        while total > MAX_EVENT_BUFFER_BYTES as u128 || events.len() > MAX_EVENT_BUFFER
            invariant
                total == event_bytes(events_view(events@)),
                evict(events_view(events@)) == evict(all),
            decreases events@.len(),
        {
            let ghost before = events_view(events@);
            proof {
                lemma_bytes_front(before);
            }
            if let Some((_, m)) = events.pop_front() {
                assert(events_view(events@) =~= before.skip(1));
                total = total - m.as_str().as_bytes().len() as u128;
            }
        }
        proof {
            evict_keeps_newest(all);
            assert(events_view(events@) == evict(all));
        }
        *self = EventBuffer { next_id: id, events, total_bytes: total };
        id
    }

    /// The buffered events after the one numbered `last_id`.
    pub fn replay_from(&self, last_id: u64) -> (r: Vec<(u64, String)>)
        ensures
            events_view(r@) == self@.replay_from(last_id),
    {
        let ghost all = self@.events;
        let ghost keep = |e: (u64, Seq<char>)| e.0 > last_id;
        let mut r: Vec<(u64, String)> = Vec::new();
        let mut i: usize = 0;
        proof {
            reveal(Seq::filter);
            assert(events_view(r@) =~= all.take(0).filter(keep));
        }
        while i < self.events.len()
            invariant
                i <= self.events@.len(),
                all == events_view(self.events@),
                keep == (|e: (u64, Seq<char>)| e.0 > last_id),
                events_view(r@) == all.take(i as int).filter(keep),
            decreases self.events@.len() - i,
        {
            proof {
                lemma_filter_push(all.take(i as int), all[i as int], keep);
                assert(all.take(i + 1) =~= all.take(i as int).push(all[i as int]));
            }
            let e = &self.events[i];
            if e.0 > last_id {
                let ghost before = r@;
                r.push((e.0, e.1.clone()));
                assert(events_view(r@) =~= events_view(before).push(all[i as int]));
            }
            i = i + 1;
        }
        assert(all.take(all.len() as int) =~= all);
        r
    }
}

} // verus!
