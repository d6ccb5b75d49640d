//! The pace at which the remote catalog may be asked.
//!
//! The catalog watches the average rate of requests. Requests are therefore
//! kept a floor interval apart, but after a longer pause one request may go
//! out at once: a run of the pipeline right after a quiet time is not held
//! up. Time comes in as a number of nanoseconds on a clock that does not go
//! back; the caller reads the clock, asks, and sleeps for what it is told.
//! What is remembered of a request is the time at which it goes out, after
//! its wait.

use vstd::prelude::*;

verus! {

/// Requests are kept at least this far apart: one second.
pub const FLOOR_INTERVAL_NS: u64 = 1_000_000_000;

/// A pause longer than this makes a burst available again: three seconds.
pub const COOLDOWN_NS: u64 = 3_000_000_000;

/// What is remembered between requests.
#[derive(Debug, Clone, Copy, PartialEq, Eq, Structural)]
pub struct RequestThrottle {
    /// When the last request went out, if there was one.
    pub last_request: Option<u64>,
    /// Whether the next request may go out at once.
    pub burst_allowed: bool,
}

/// The time from `last` to `now`, 0 where `now` lies before `last`: a
/// request that is decided on while the one before it still waits.
pub open spec fn elapsed_ns(last: u64, now: u64) -> int {
    if now >= last {
        now - last
    } else {
        0
    }
}

impl RequestThrottle {
    /// How long a request decided on at `now` has to wait: not at all if it
    /// is the first, or if a burst is available; otherwise for what is left
    /// of the floor interval since the last request.
    pub open spec fn delay(self, now: u64) -> int {
        match self.last_request {
            None => 0,
            Some(last) => if self.burst_allowed {
                0
            } else if elapsed_ns(last, now) < FLOOR_INTERVAL_NS {
                FLOOR_INTERVAL_NS - elapsed_ns(last, now)
            } else {
                0
            },
        }
    }

    /// Whether a burst is available after a request decided on at `now`. A
    /// burst that was available is used up by it. A request that comes more
    /// than the cooldown after the last one makes a burst available for the
    /// next. The first request of all leaves things as they are.
    pub open spec fn burst_after(self, now: u64) -> bool {
        match self.last_request {
            None => self.burst_allowed,
            Some(last) => !self.burst_allowed && elapsed_ns(last, now) >= FLOOR_INTERVAL_NS
                && elapsed_ns(last, now) > COOLDOWN_NS,
        }
    }

    /// When a request decided on at `now` goes out: after its wait, and no
    /// later than the clock can tell.
    pub open spec fn goes_out(self, now: u64) -> u64 {
        if now + self.delay(now) <= u64::MAX {
            (now + self.delay(now)) as u64
        } else {
            u64::MAX
        }
    }

    /// The state after a request decided on at `now`: what is remembered as
    /// the time of the last request is the time at which it goes out.
    pub open spec fn after(self, now: u64) -> RequestThrottle {
        RequestThrottle {
            last_request: Some(self.goes_out(now)),
            burst_allowed: self.burst_after(now),
        }
    }

    /// The state before any request: a burst is available.
    pub fn new() -> (r: RequestThrottle)
        ensures
            r == (RequestThrottle { last_request: None, burst_allowed: true }),
    {
        RequestThrottle { last_request: None, burst_allowed: true }
    }

    /// Decides on a request at the time `now` and gives the time to wait
    /// before it goes out. The time at which it goes out, `now` and the wait,
    /// is what is remembered as the time of the request.
    pub fn request_throttle(&mut self, now: u64) -> (wait: u64)
        ensures
            wait == old(self).delay(now),
            *final(self) == old(self).after(now),
    {
        let wait = match self.last_request {
            None => 0,
            Some(last) => {
                let elapsed = if now >= last {
                    now - last
                } else {
                    0
                };
                if self.burst_allowed {
                    self.burst_allowed = false;
                    0
                } else if elapsed < FLOOR_INTERVAL_NS {
                    FLOOR_INTERVAL_NS - elapsed
                } else {
                    if elapsed > COOLDOWN_NS {
                        self.burst_allowed = true;
                    }
                    0
                }
            },
        };
        self.last_request = Some(
            if wait <= u64::MAX - now {
                now + wait
            } else {
                u64::MAX
            },
        );
        wait
    }
}

/// No request waits longer than the floor interval.
pub proof fn lemma_delay_bounded(state: RequestThrottle, now: u64)
    ensures
        0 <= state.delay(now) <= FLOOR_INTERVAL_NS,
{
}

/// Without a burst, a request that is decided on when the one before it has
/// gone out goes out no sooner than a floor interval after that one did.
pub proof fn lemma_floor_kept(state: RequestThrottle, now: u64)
    requires
        state.last_request is Some,
        !state.burst_allowed,
        now >= state.last_request->0,
    ensures
        now + state.delay(now) >= state.last_request->0 + FLOOR_INTERVAL_NS,
        state.goes_out(now) < u64::MAX ==> state.after(now).last_request->0
            >= state.last_request->0 + FLOOR_INTERVAL_NS,
{
}

/// The floor holds from request to request. Where the second of three
/// requests neither uses a burst nor earns one, and the third is decided on
/// when the second has gone out, the third goes out a floor interval or more
/// after the second, however long the second had to wait.
pub proof fn lemma_floor_kept_after_wait(state: RequestThrottle, second: u64, third: u64)
    requires
        state.last_request is Some,
        !state.burst_allowed,
        !state.after(second).burst_allowed,
        third >= state.goes_out(second),
        state.after(second).goes_out(third) < u64::MAX,
    ensures
        state.after(second).goes_out(third) >= state.goes_out(second) + FLOOR_INTERVAL_NS,
{
}

/// After a pause longer than the cooldown, of two requests decided on at one
/// time the first uses the burst that the state holds, and the second waits a
/// whole floor interval.
pub proof fn lemma_burst_then_floor(state: RequestThrottle, now: u64)
    requires
        state.last_request is Some,
        state.burst_allowed,
    ensures
        state.delay(now) == 0,
        state.after(now).delay(now) == FLOOR_INTERVAL_NS,
{
}

} // verus!
