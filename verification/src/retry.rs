//! Retrying: how often a request that failed is made again, and after what
//! delay.
use vstd::prelude::*;

verus! {

/// A fixed delay between attempts and a bound on their number.
#[derive(Clone, Copy, Debug, PartialEq, Eq, Structural)]
pub struct RetryPolicy {
    /// The delay before a request that failed is made again, in
    /// milliseconds.
    pub delay_ms: u64,
    /// The number of attempts that one request gets; zero for no bound.
    pub max_attempts: u64,
}

impl RetryPolicy {
    /// Whether a request that has failed `failures` times gets another
    /// attempt.
    pub open spec fn allows(self, failures: u64) -> bool {
        self.max_attempts == 0 || failures < self.max_attempts
    }

    /// Every request is repeated until it succeeds.
    pub fn unbounded(delay_ms: u64) -> (r: RetryPolicy)
        ensures
            r == (RetryPolicy { delay_ms, max_attempts: 0 }),
    {
        RetryPolicy { delay_ms, max_attempts: 0 }
    }

    /// A request gets `max_attempts` attempts.
    pub fn bounded(delay_ms: u64, max_attempts: u64) -> (r: RetryPolicy)
        ensures
            r == (RetryPolicy { delay_ms, max_attempts }),
    {
        RetryPolicy { delay_ms, max_attempts }
    }

    /// The delay before the next attempt of a request that has failed
    /// `failures` times, or `None` where it gets no other attempt.
    pub fn next_delay(&self, failures: u64) -> (r: Option<u64>)
        ensures
            r == if self.allows(failures) {
                Some(self.delay_ms)
            } else {
                None
            },
    {
        if self.max_attempts == 0 || failures < self.max_attempts {
            Some(self.delay_ms)
        } else {
            None
        }
    }
}

/// One more failure; the count stops at the largest number there is.
pub open spec fn one_more(failures: u64) -> u64 {
    if failures < u64::MAX {
        (failures + 1) as u64
    } else {
        failures
    }
}

/// One more failure: see `one_more`.
pub fn count_failure(failures: u64) -> (r: u64)
    ensures
        r == one_more(failures),
{
    if failures < u64::MAX {
        failures + 1
    } else {
        failures
    }
}

} // verus!
