//! The time, as nanoseconds since a clock was started.
use vstd::prelude::*;

use crate::outside::unix_epoch;

verus! {

/// Nanoseconds in one second.
pub const NANOS_PER_SEC: u128 = 1_000_000_000;

/// The latest time that a clock shows, in nanoseconds.
pub const MAX_NANOS: u128 = 0x7fff_ffff_ffff_ffff_ffff_ffff_ffff_ffff;

/// What a clock shows once so many nanoseconds have passed since it was started: these, up to the
/// latest time.
pub fn shown(elapsed: u128) -> (n: u128)
    ensures
        n == if elapsed <= MAX_NANOS {
            elapsed
        } else {
            MAX_NANOS
        },
{
    if elapsed > MAX_NANOS {
        MAX_NANOS
    } else {
        elapsed
    }
}

/// The seconds to count from, given those since the Unix epoch where the wall clock is past it.
pub fn past_epoch(since: Option<u64>) -> (n: u64)
    ensures
        n == match since {
            Some(secs) => secs,
            None => 0,
        },
{
    match since {
        Some(secs) => secs,
        None => 0,
    }
}

/// A monotonic clock.
pub struct Clock {
    start: std::time::Instant,
}

impl Clock {
    /// A clock that starts now. When that is, is up to the machine.
    pub fn start() -> Clock {
        Clock { start: std::time::Instant::now() }
    }

    /// The nanoseconds since the clock was started, as `shown` has them. How many have passed is up
    /// to the machine: nothing else holds of every outcome.
    pub fn nanos(&self) -> (n: u128)
        ensures
            n <= MAX_NANOS,
    {
        let elapsed: u128 = self.start.elapsed().as_nanos();
        shown(elapsed)
    }
}

/// Whole seconds since the Unix epoch, as `past_epoch` has them; none where the wall clock is set
/// before it. How many they are is up to the machine: nothing holds of every outcome.
pub fn unix_secs() -> u64 {
    let since: Option<u64> = match std::time::SystemTime::now().duration_since(unix_epoch()) {
        Ok(d) => Some(d.as_secs()),
        Err(_) => None,
    };
    past_epoch(since)
}

} // verus!
