//! The outcomes of a plain check: a snapshot of the state, or the time before which there is no
//! point in trying again.
use core::time::Duration;
use vstd::prelude::*;

use crate::clock::{earlier_of, span_between, time_between, Reference};
use crate::decision::Outcome;
use crate::duration::duration_as_nanos;
use crate::gcra::Bucket;
use crate::middleware::RateLimitingMiddleware;
use crate::quota::Quota;

verus! {

/// Information about the rate-limiting state that a positive outcome has left behind.
#[derive(Debug, Clone, Copy, PartialEq, Eq, Structural)]
pub struct StateSnapshot {
    quota: Quota,
    remaining: u32,
}

impl StateSnapshot {
    /// The quota of the rate limiter.
    pub closed spec fn limit(self) -> Quota {
        self.quota
    }

    /// The number of cells that there is still room for.
    pub closed spec fn left(self) -> u32 {
        self.remaining
    }

    /// Creates a snapshot.
    pub(crate) fn new(quota: Quota, remaining: u32) -> (snapshot: Self)
        ensures
            snapshot.limit() == quota,
            snapshot.left() == remaining,
    {
        StateSnapshot { quota, remaining }
    }

    /// Returns the quota of the rate limiter.
    pub fn quota(&self) -> (quota: Quota)
        ensures
            quota == self.limit(),
    {
        self.quota
    }

    /// Returns the number of cells that can be let through in addition to the positive outcome.
    pub fn remaining_burst_capacity(&self) -> (remaining: u32)
        ensures
            remaining == self.left(),
    {
        self.remaining
    }
}

/// A negative rate-limiting outcome.
#[derive(Debug, Copy, PartialEq, Eq)]
pub struct NotUntil<P: Reference> {
    quota: Quota,
    earliest: P,
}

impl<P: Reference> Clone for NotUntil<P> {
    fn clone(&self) -> (copy: Self)
        ensures
            copy == *self,
    {
        *self
    }
}

impl<P: Reference> NotUntil<P> {
    /// The quota of the rate limiter.
    pub closed spec fn limit(self) -> Quota {
        self.quota
    }

    /// The earliest time at which the cells could conform.
    pub closed spec fn retry(self) -> P {
        self.earliest
    }

    /// The number of nanoseconds from `from` on that must pass before the cells could conform.
    pub open spec fn wait_from(self, from: u64) -> u64 {
        time_between(from, self.retry().reading())
    }

    /// Creates a negative outcome.
    pub(crate) fn new(quota: Quota, earliest: P) -> (negative: Self)
        ensures
            negative.limit() == quota,
            negative.retry() == earliest,
    {
        NotUntil { quota, earliest }
    }

    /// Returns the quota of the rate limiter.
    pub fn quota(&self) -> (quota: Quota)
        ensures
            quota == self.limit(),
    {
        self.quota
    }

    /// Returns the earliest time at which a check for the same number of cells could be positive,
    /// excluding the effect of other checks that are made in the meantime.
    pub fn earliest_possible(&self) -> (earliest: P)
        ensures
            earliest == self.retry(),
    {
        self.earliest
    }

    /// Returns the minimum amount of time from `from` that must pass before a check for the same
    /// number of cells could be positive, or zero if that time has come.
    pub fn wait_time_from(&self, from: P) -> (wait: Duration)
        ensures
            duration_as_nanos(wait) == self.wait_from(from.reading()),
    {
        span_between(earlier_of(self.earliest, from), self.earliest).to_duration()
    }
}

/// Whether `result` is the outcome of a plain check of `n` cells at `now`, reached in the given
/// state and shaped by a middleware.
pub open spec fn outcome_follows<P: Reference, MW: RateLimitingMiddleware<P>>(
    result: Result<MW::PositiveOutcome, MW::NegativeOutcome>,
    state: Bucket<P>,
    now: nat,
    n: nat,
) -> bool {
    match result {
        Ok(outcome) => {
            &&& state.admits(now, n)
            &&& MW::may_allow(state.quota, state.after(now, n).spare(now), outcome)
        },
        Err(outcome) => {
            &&& !state.admits(now, n)
            &&& MW::may_disallow(state.quota, state.retry_at(n), outcome)
            &&& state.retry_at(n).reading() == state.retry_reading(n)
        },
    }
}

/// Shapes the outcome of a plain check.
pub(crate) fn shaped<P: Reference, MW: RateLimitingMiddleware<P>>(
    quota: Quota,
    outcome: Outcome<P>,
) -> (result: Result<MW::PositiveOutcome, MW::NegativeOutcome>)
    ensures
        match outcome {
            Outcome::Allowed { remaining_burst_capacity } => {
                &&& result matches Ok(result)
                &&& MW::may_allow(quota, remaining_burst_capacity as nat, result)
            },
            Outcome::Denied { retry_at } => {
                &&& result matches Err(result)
                &&& MW::may_disallow(quota, retry_at, result)
            },
        },
{
    match outcome {
        Outcome::Allowed { remaining_burst_capacity } => {
            Ok(MW::allow(StateSnapshot::new(quota, remaining_burst_capacity)))
        },
        Outcome::Denied { retry_at } => Err(MW::disallow(NotUntil::new(quota, retry_at))),
    }
}

} // verus!
