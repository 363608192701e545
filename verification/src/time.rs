//! Spans of time, to the millisecond.
use vstd::prelude::*;

verus! {

/// A span of time.
#[derive(Debug, Clone, Copy, PartialEq, Eq, Structural)]
pub struct Duration {
    /// Its length in milliseconds.
    pub millis: u128,
}

impl Duration {
    /// So many seconds.
    pub open spec fn of_secs(secs: u64) -> Duration {
        Duration { millis: (secs * 1000) as u128 }
    }

    /// So many milliseconds.
    pub open spec fn of_millis(millis: u64) -> Duration {
        Duration { millis: millis as u128 }
    }

    /// So many seconds.
    pub fn from_secs(secs: u64) -> (r: Duration)
        ensures
            r == Duration::of_secs(secs),
            r.millis == secs * 1000,
    {
        Duration { millis: secs as u128 * 1000 }
    }

    /// So many milliseconds.
    pub fn from_millis(millis: u64) -> (r: Duration)
        ensures
            r == Duration::of_millis(millis),
            r.millis == millis,
    {
        Duration { millis: millis as u128 }
    }

    /// The whole seconds in the span, or the most that can be counted where it holds more.
    pub fn as_secs(&self) -> (r: u64)
        ensures
            r == if self.millis / 1000 <= u64::MAX {
                self.millis / 1000
            } else {
                u64::MAX as u128
            },
    {
        let secs: u128 = self.millis / 1000;
        if secs <= u64::MAX as u128 {
            secs as u64
        } else {
            u64::MAX
        }
    }
}

/// Whether time is up: more has gone by than there was, if there was a limit.
pub fn is_overdue(elapsed: Duration, timeout: Option<Duration>) -> (r: bool)
    ensures
        r == (timeout matches Some(limit) && elapsed.millis > limit.millis),
{
    match timeout {
        Some(limit) => elapsed.millis > limit.millis,
        None => false,
    }
}

} // verus!
