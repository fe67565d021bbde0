//! Times, as nanoseconds on the server's monotonic clock.
use std::time::{Duration, Instant};
use vstd::prelude::*;

verus! {

/// `std::time::Instant`, a point in time.
#[verifier::external_type_specification]
#[verifier::external_body]
pub struct ExInstant(Instant);

/// The nanoseconds that a duration comes to.
pub uninterp spec fn nanos(duration: Duration) -> nat;

/// `Instant::now` reads the clock. Nothing is stated of the result: it is up to
/// the time.
pub assume_specification[ std::time::Instant::now ]() -> (now: Instant);

/// `Instant::elapsed` reads the clock. Nothing is stated of the result: it is up
/// to the time.
pub assume_specification[ std::time::Instant::elapsed ](since: &Instant) -> (duration: Duration);

/// `Duration::as_nanos` gives a duration in nanoseconds.
pub assume_specification[ std::time::Duration::as_nanos ](duration: &Duration) -> (count: u128)
    ensures
        count == nanos(*duration),
;

/// A clock that counts nanoseconds from its start and never runs backwards.
#[derive(Debug)]
pub struct Clock {
    started: Instant,
    reading: u128,
}

impl View for Clock {
    type V = u128;

    /// The last reading.
    closed spec fn view(&self) -> u128 {
        self.reading
    }
}

impl Clock {
    /// Starts a clock.
    pub fn start() -> (clock: Self)
        ensures
            clock@ == 0,
    {
        Clock { started: Instant::now(), reading: 0 }
    }

    /// Moves the clock on to `elapsed` nanoseconds from its start, unless it has
    /// read more than that before.
    pub fn advance(&mut self, elapsed: u128) -> (now: u128)
        ensures
            now == (if elapsed > old(self)@ {
                elapsed
            } else {
                old(self)@
            }),
            final(self)@ == now,
    {
        if self.reading < elapsed {
            self.reading = elapsed;
        }
        self.reading
    }

    /// Reads the clock.
    pub fn now(&mut self) -> (now: u128)
        ensures
            old(self)@ <= now,
            final(self)@ == now,
    {
        let elapsed = self.started.elapsed().as_nanos();
        self.advance(elapsed)
    }
}

/// The time from `since` to `now`, and zero where `since` is the later one.
pub open spec fn time_between(since: u128, now: u128) -> int {
    if since <= now {
        now - since
    } else {
        0
    }
}

/// Computes the time from `since` to `now`, zero where `since` is the later one.
pub fn elapsed_since(since: u128, now: u128) -> (duration: u128)
    ensures
        duration == time_between(since, now),
{
    now.saturating_sub(since)
}

} // verus!
