//! The politeness limiter: one shared record of the previous fetch instant,
//! enforcing a minimum spacing between consecutive outbound fetches.
//!
//! The limiter itself is pure bookkeeping over millisecond readings of a
//! monotonic clock; the caller supplies the readings and performs the actual
//! sleep for however long `throttle` says.

use vstd::prelude::*;

verus! {

/// The politeness delay: the minimum spacing between consecutive outbound
/// fetches, in milliseconds.
pub const REQUEST_DELAY_MS: u64 = 50;

/// Serializes outbound fetch issuance with a minimum inter-fetch delay.
///
/// `last_request_ms` is the reading taken when the previous fetch was issued,
/// or `None` before the first fetch.
pub struct RateLimiter {
    pub delay_ms: u64,
    pub last_request_ms: Option<u64>,
}

impl RateLimiter {
    /// How long a caller arriving at reading `now_ms` must still wait before
    /// it may fetch: the part of the configured delay that has not yet
    /// elapsed since the previous fetch.
    pub open spec fn spec_wait(self, now_ms: u64) -> u64 {
        match self.last_request_ms {
            Some(last) => {
                if now_ms - last < self.delay_ms {
                    (self.delay_ms - (now_ms - last)) as u64
                } else {
                    0
                }
            },
            None => 0,
        }
    }

    /// Readings come from a monotonic clock, so the recorded instant never
    /// lies in the caller's future.
    pub open spec fn reading_valid(self, now_ms: u64) -> bool {
        match self.last_request_ms {
            Some(last) => last <= now_ms,
            None => true,
        }
    }

    pub fn new(delay_ms: u64) -> (r: RateLimiter)
        ensures
            r.delay_ms == delay_ms,
            r.last_request_ms is None,
    {
        RateLimiter { delay_ms, last_request_ms: None }
    }

    /// One throttled fetch issuance at clock reading `now_ms`. Returns the
    /// time still to sleep before the caller may touch the network, and
    /// remembers `now_ms` for the next caller.
    pub fn throttle(&mut self, now_ms: u64) -> (wait_ms: u64)
        requires
            old(self).reading_valid(now_ms),
        ensures
            wait_ms == old(self).spec_wait(now_ms),
            final(self).last_request_ms == Some(now_ms),
            final(self).delay_ms == old(self).delay_ms,
    {
        let wait_ms: u64 = match self.last_request_ms {
            Some(last) => {
                let elapsed = now_ms - last;
                if elapsed < self.delay_ms {
                    self.delay_ms - elapsed
                } else {
                    0
                }
            },
            None => 0,
        };
        self.last_request_ms = Some(now_ms);
        wait_ms
    }
}

/// Two throttled fetches issued closer together than the configured delay
/// leave the second caller sleeping exactly until a full delay has elapsed
/// since the first.
pub proof fn lemma_rate_limiting(limiter: RateLimiter, first_ms: u64, second_ms: u64)
    requires
        limiter.last_request_ms == Some(first_ms),
        first_ms <= second_ms,
        second_ms - first_ms < limiter.delay_ms,
    ensures
        limiter.spec_wait(second_ms) == limiter.delay_ms - (second_ms - first_ms),
        limiter.spec_wait(second_ms) + (second_ms - first_ms) == limiter.delay_ms,
{
}

} // verus!
