//! Structured evidence about a single rate-limiting decision.
//!
//! The `check_with_decision` family of methods returns a [`Decision`]: a snapshot of everything
//! there is to know about one rate-limiting verdict, taken at the exact moment the rate limiter's
//! state transitioned (or, for negative outcomes, was observed). All the information in a
//! `Decision` is derived from the same state transition.
use core::time::Duration;
use vstd::prelude::*;

use crate::clock::{earlier_of, span_between, time_between, Reference};
use crate::duration::duration_as_nanos;
use crate::gcra::Bucket;
use crate::nonzero::NonZeroU32;
use crate::quota::Quota;

verus! {

/// The structured outcome of a single rate-limiting decision.
///
/// It captures, from the single state transition that decided the fate of a request:
///
/// * the time at which the decision was made ([`time_of_decision`][Decision::time_of_decision]),
/// * the number of cells the decision was made for ([`cells`][Decision::cells]),
/// * the quota the decision was reached under ([`quota`][Decision::quota]),
/// * and either the remaining burst capacity after a positive decision
///   ([`remaining_burst_capacity`][Decision::remaining_burst_capacity]) or the earliest time a retry
///   could be allowed after a negative one ([`retry_at`][Decision::retry_at]).
#[derive(Debug, PartialEq, Eq)]
pub struct Decision<P: Reference> {
    quota: Quota,
    cells: NonZeroU32,
    at: P,
    outcome: Outcome<P>,
}

/// The outcome-specific part of a [`Decision`].
#[derive(Debug, Copy, PartialEq, Eq)]
pub enum Outcome<P: Reference> {
    /// The cells were allowed through; the burst capacity that remains immediately after the
    /// decision is recorded.
    Allowed {
        /// The number of cells that could be let through in addition.
        remaining_burst_capacity: u32,
    },
    /// The cells were not allowed through; the earliest time at which a retry could be allowed is
    /// recorded.
    Denied {
        /// The earliest time at which a retry could be allowed.
        retry_at: P,
    },
}

/// What a [`Decision`] records.
pub struct Evidence<P: Reference> {
    /// The quota the decision was reached under.
    pub quota: Quota,
    /// The number of cells the decision was made for.
    pub cells: NonZeroU32,
    /// The clock reading at which the decision was made.
    pub at: P,
    /// The outcome-specific evidence.
    pub outcome: Outcome<P>,
}

impl<P: Reference> Clone for Outcome<P> {
    fn clone(&self) -> (copy: Self)
        ensures
            copy == *self,
    {
        *self
    }
}

impl<P: Reference> Outcome<P> {
    /// Whether this is what comes of `n` cells at `now` in the given state.
    pub open spec fn follows_from(self, state: Bucket<P>, now: nat, n: nat) -> bool {
        match self {
            Outcome::Allowed { remaining_burst_capacity } => {
                &&& state.admits(now, n)
                &&& remaining_burst_capacity == state.after(now, n).spare(now)
            },
            Outcome::Denied { retry_at } => {
                &&& !state.admits(now, n)
                &&& retry_at == state.retry_at(n)
                &&& retry_at.reading() == state.retry_reading(n)
            },
        }
    }

    /// The burst capacity that a positive outcome records.
    pub open spec fn remaining(self) -> Option<u32> {
        match self {
            Outcome::Allowed { remaining_burst_capacity } => Some(remaining_burst_capacity),
            Outcome::Denied { .. } => None,
        }
    }

    /// The earliest time for a retry that a negative outcome records.
    pub open spec fn retry(self) -> Option<P> {
        match self {
            Outcome::Allowed { .. } => None,
            Outcome::Denied { retry_at } => Some(retry_at),
        }
    }

    /// The number of nanoseconds from `from` on that must pass before a retry could be allowed.
    pub open spec fn wait_from(self, from: u64) -> u64 {
        match self {
            Outcome::Allowed { .. } => 0,
            Outcome::Denied { retry_at } => time_between(from, retry_at.reading()),
        }
    }
}

impl<P: Reference> View for Decision<P> {
    type V = Evidence<P>;

    closed spec fn view(&self) -> Evidence<P> {
        Evidence { quota: self.quota, cells: self.cells, at: self.at, outcome: self.outcome }
    }
}

impl<P: Reference> Clone for Decision<P> {
    fn clone(&self) -> (copy: Self)
        ensures
            copy == *self,
    {
        Decision { quota: self.quota, cells: self.cells, at: self.at, outcome: self.outcome }
    }
}

impl<P: Reference> Decision<P> {
    /// Whether this is the evidence of a decision about `n` cells at `now`, reached in the given
    /// state.
    pub open spec fn reports(self, state: Bucket<P>, now: P, n: nat) -> bool {
        &&& self@.quota == state.quota
        &&& self@.cells@ == n
        &&& self@.at == now
        &&& self@.outcome.follows_from(state, now.reading() as nat, n)
    }

    /// Creates a positive (conforming) decision.
    pub fn allowed(quota: Quota, cells: NonZeroU32, at: P, remaining_burst_capacity: u32) -> (decision:
        Self)
        ensures
            decision@ == (Evidence {
                quota,
                cells,
                at,
                outcome: Outcome::Allowed { remaining_burst_capacity },
            }),
    {
        Decision { quota, cells, at, outcome: Outcome::Allowed { remaining_burst_capacity } }
    }

    /// Creates a negative (non-conforming) decision.
    pub fn denied(quota: Quota, cells: NonZeroU32, at: P, retry_at: P) -> (decision: Self)
        ensures
            decision@ == (Evidence { quota, cells, at, outcome: Outcome::Denied { retry_at } }),
    {
        Decision { quota, cells, at, outcome: Outcome::Denied { retry_at } }
    }

    /// Returns `true` if the cells were allowed through the rate limiter.
    pub fn is_allowed(&self) -> (allowed: bool)
        ensures
            allowed == (self@.outcome is Allowed),
    {
        matches!(self.outcome, Outcome::Allowed { .. })
    }

    /// Returns the rate limiting [`Quota`] the decision was reached under.
    pub fn quota(&self) -> (quota: Quota)
        ensures
            quota == self@.quota,
    {
        self.quota
    }

    /// Returns the number of cells the decision was made for.
    pub fn cells(&self) -> (cells: NonZeroU32)
        ensures
            cells == self@.cells,
    {
        self.cells
    }

    /// Returns the clock reading at which the decision was made.
    ///
    /// This is the exact clock measurement that the rate limiter used to reach the decision; all
    /// other fields of the `Decision` are consistent with this point in time.
    pub fn time_of_decision(&self) -> (at: P)
        ensures
            at == self@.at,
    {
        self.at
    }

    /// Returns the number of cells that could be let through in addition to this decision,
    /// immediately after it was made.
    ///
    /// This returns `Some` only if the decision was positive; negative decisions (which never
    /// consume any capacity) return `None`.
    pub fn remaining_burst_capacity(&self) -> (remaining: Option<u32>)
        ensures
            remaining == self@.outcome.remaining(),
    {
        match self.outcome {
            Outcome::Allowed { remaining_burst_capacity } => Some(remaining_burst_capacity),
            Outcome::Denied { .. } => None,
        }
    }

    /// Returns the earliest time at which a decision for the same number of cells could be
    /// positive.
    ///
    /// This returns `Some` only if the decision was negative; positive decisions return `None`.
    /// It excludes the effect of other decisions that are made in the meantime.
    pub fn retry_at(&self) -> (retry_at: Option<P>)
        ensures
            retry_at == self@.outcome.retry(),
    {
        match self.outcome {
            Outcome::Allowed { .. } => None,
            Outcome::Denied { retry_at } => Some(retry_at),
        }
    }

    /// Returns the minimum amount of time from `from` that must pass before a decision for the same
    /// number of cells could be positive.
    ///
    /// Returns a zero `Duration` if the decision was positive, or if the earliest retry time lies
    /// in the past relative to `from`. The clock is never asked for a negative distance.
    pub fn wait_time_from(&self, from: P) -> (wait: Duration)
        ensures
            duration_as_nanos(wait) == self@.outcome.wait_from(from.reading()),
    {
        match self.outcome {
            Outcome::Allowed { .. } => Duration::from_nanos(0),
            Outcome::Denied { retry_at } => {
                span_between(earlier_of(retry_at, from), retry_at).to_duration()
            },
        }
    }
}

} // verus!
