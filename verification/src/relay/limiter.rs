//! Limits how often a client may ask.
use vstd::prelude::*;

use crate::clock::Clock;
use crate::seqs::lemma_filter_push;
use crate::strmap::StrMap;

verus! {

/// The times at which each client was let through, as nanoseconds of one clock.
pub struct RateLimiter {
    attempts: StrMap<Vec<u128>>,
    clock: Clock,
}

/// Whether `t` is less than `window` before `now`.
pub open spec fn within(t: u128, window: nat, now: u128) -> bool {
    t + window > now
}

/// The times in the window that ends now.
pub open spec fn recent(times: Seq<u128>, window: nat, now: u128) -> Seq<u128> {
    times.filter(|t: u128| within(t, window, now))
}

/// The times known of a client.
pub open spec fn times_of(m: Map<Seq<char>, Seq<u128>>, key: Seq<char>) -> Seq<u128> {
    if m.contains_key(key) {
        m[key]
    } else {
        Seq::empty()
    }
}

/// What a check does at a given time: a client is let through while fewer than `max` of its times
/// are in the window, and the time is then noted. Times out of the window are forgotten.
pub open spec fn limit(
    m: Map<Seq<char>, Seq<u128>>,
    key: Seq<char>,
    max: nat,
    window: nat,
    now: u128,
) -> (Map<Seq<char>, Seq<u128>>, bool) {
    let kept = recent(times_of(m, key), window, now);
    if kept.len() >= max {
        (m.insert(key, kept), false)
    } else {
        (m.insert(key, kept.push(now)), true)
    }
}

/// A check lets a client through exactly where it was let through fewer than `max` times in the
/// window; it then was let through at most that often.
pub proof fn limit_holds(
    m: Map<Seq<char>, Seq<u128>>,
    key: Seq<char>,
    max: nat,
    window: nat,
    now: u128,
)
    requires
        window > 0,
    ensures
        ({
            let (after, allowed) = limit(m, key, max, window, now);
            &&& allowed ==> recent(after[key], window, now).len() <= max
            &&& !allowed ==> recent(times_of(m, key), window, now).len() >= max
            &&& allowed == (recent(times_of(m, key), window, now).len() < max)
        }),
{
    let keep = |t: u128| within(t, window, now);
    let kept = recent(times_of(m, key), window, now);
    lemma_filter_push(kept, now, keep);
    kept.lemma_filter_len(keep);
}

/// The checks of one client at each of `times` in turn, from a limiter that knows nothing of it: the
/// times at which it was let through.
pub open spec fn passes(times: Seq<u128>, max: nat, window: nat) -> Seq<u128>
    decreases times.len(),
{
    if times.len() == 0 {
        Seq::empty()
    } else {
        let before = passes(times.drop_last(), max, window);
        if recent(before, window, times.last()).len() < max {
            before.push(times.last())
        } else {
            before
        }
    }
}

/// What a limiter knows after those checks.
pub open spec fn checked(
    m: Map<Seq<char>, Seq<u128>>,
    key: Seq<char>,
    times: Seq<u128>,
    max: nat,
    window: nat,
) -> Map<Seq<char>, Seq<u128>>
    decreases times.len(),
{
    if times.len() == 0 {
        m
    } else {
        limit(checked(m, key, times.drop_last(), max, window), key, max, window, times.last()).0
    }
}

/// Times that never go back.
pub open spec fn never_back(times: Seq<u128>) -> bool {
    forall|i: int, j: int| 0 <= i <= j < times.len() ==> times[i] <= times[j]
}

proof fn lemma_recent_of_recent(times: Seq<u128>, window: nat, now: u128, later: u128)
    requires
        now <= later,
    ensures
        recent(recent(times, window, now), window, later) == recent(times, window, later),
    decreases times.len(),
{
    let p = |t: u128| within(t, window, now);
    let q = |t: u128| within(t, window, later);
    reveal(Seq::filter);
    if times.len() > 0 {
        let init = times.drop_last();
        let x = times.last();
        lemma_recent_of_recent(init, window, now, later);
        lemma_filter_push(init, x, p);
        lemma_filter_push(init, x, q);
        lemma_filter_push(recent(init, window, now), x, q);
        assert(init.push(x) =~= times);
    }
}

proof fn lemma_fewer_later(times: Seq<u128>, window: nat, now: u128, later: u128)
    requires
        now <= later,
    ensures
        recent(times, window, later).len() <= recent(times, window, now).len(),
{
    lemma_recent_of_recent(times, window, now, later);
    let q = |t: u128| within(t, window, later);
    recent(times, window, now).lemma_filter_len(q);
}

/// However often a client asks, in no window that ends now is it let through more than `max` times;
/// and what the limiter remembers is enough to tell.
pub proof fn limit_holds_over_time(
    m: Map<Seq<char>, Seq<u128>>,
    key: Seq<char>,
    times: Seq<u128>,
    max: nat,
    window: nat,
    now: u128,
)
    requires
        never_back(times),
        times.len() > 0 ==> times.last() <= now,
        !m.contains_key(key),
        window > 0,
    ensures
        recent(passes(times, max, window), window, now).len() <= max,
        recent(times_of(checked(m, key, times, max, window), key), window, now) == recent(
            passes(times, max, window),
            window,
            now,
        ),
    decreases times.len(),
{
    if times.len() == 0 {
        reveal(Seq::filter);
    } else {
        let init = times.drop_last();
        let t = times.last();
        assert(never_back(init)) by {
            assert forall|i: int, j: int| 0 <= i <= j < init.len() implies init[i] <= init[j] by {
                assert(times[i] <= times[j]);
            }
        }
        if init.len() > 0 {
            assert(init.last() == times[times.len() - 2]);
        }
        limit_holds_over_time(m, key, init, max, window, t);
        limit_holds_over_time(m, key, init, max, window, now);
        let known = times_of(checked(m, key, init, max, window), key);
        let before = passes(init, max, window);
        let q = |x: u128| within(x, window, now);
        let at = |x: u128| within(x, window, t);
        lemma_recent_of_recent(known, window, t, now);
        lemma_filter_push(recent(known, window, t), t, q);
        lemma_filter_push(before, t, q);
        lemma_filter_push(before, t, at);
        lemma_fewer_later(passes(times, max, window), window, t, now);
    }
}

/// A check for one client leaves every other client's times as they are.
pub proof fn limit_is_per_client(
    m: Map<Seq<char>, Seq<u128>>,
    key: Seq<char>,
    max: nat,
    window: nat,
    now: u128,
    other: Seq<char>,
)
    requires
        other != key,
    ensures
        times_of(limit(m, key, max, window, now).0, other) == times_of(m, other),
{
}

impl View for RateLimiter {
    type V = Map<Seq<char>, Seq<u128>>;

    closed spec fn view(&self) -> Map<Seq<char>, Seq<u128>> {
        self.attempts@
    }
}

impl RateLimiter {
    pub fn new() -> (r: Self)
        ensures
            r@ == Map::<Seq<char>, Seq<u128>>::empty(),
    {
        RateLimiter { attempts: StrMap::new(), clock: Clock::start() }
    }

    /// Whether the client is let through at the time given. The window is in nanoseconds.
    pub fn check_at(
        &mut self,
        key: &str,
        max_per_window: usize,
        window: u128,
        now: u128,
    ) -> (allowed: bool)
        ensures
            (final(self)@, allowed) == limit(
                old(self)@,
                key@,
                max_per_window as nat,
                window as nat,
                now,
            ),
    {
        let ghost before = self@;
        let ghost all = times_of(self@, key@);
        let ghost keep = |t: u128| within(t, window as nat, now);
        let mut kept: Vec<u128> = Vec::new();
        match self.attempts.get(key) {
            Some(times) => {
                let mut i: usize = 0;
                proof {
                    reveal(Seq::filter);
                    assert(kept@ =~= all.take(0).filter(keep));
                }
                while i < times.len()
                    invariant
                        i <= times@.len(),
                        all == times@,
                        keep == (|t: u128| within(t, window as nat, now)),
                        kept@ == all.take(i as int).filter(keep),
                    decreases times@.len() - i,
                {
                    proof {
                        lemma_filter_push(all.take(i as int), all[i as int], keep);
                        assert(all.take(i + 1) =~= all.take(i as int).push(all[i as int]));
                    }
                    let t = times[i];
                    if t > now || now - t < window {
                        kept.push(t);
                    }
                    i = i + 1;
                }
                assert(all.take(all.len() as int) =~= all);
            },
            None => {
                proof {
                    reveal(Seq::filter);
                    assert(kept@ =~= all.filter(keep));
                }
            },
        }
        let allowed = kept.len() < max_per_window;
        if allowed {
            kept.push(now);
        }
        self.attempts.insert(key.to_owned(), kept);
        allowed
    }

    /// Whether the client is let through now. The window is in nanoseconds.
    pub fn check(&mut self, key: &str, max_per_window: usize, window: u128) -> (allowed: bool)
        ensures
            exists|now: u128| #[trigger]
                limit(
                    old(self)@,
                    key@,
                    max_per_window as nat,
                    window as nat,
                    now,
                ) == (final(self)@, allowed),
    {
        let now = self.clock.nanos();
        self.check_at(key, max_per_window, window, now)
    }
}

} // verus!
