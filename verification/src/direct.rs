//! Direct rate limiters, which have a single state.
use core::marker::PhantomData;
use vstd::prelude::*;

use crate::clock::Reference;
use crate::decision::{Decision, Outcome};
use crate::errors::InsufficientCapacity;
use crate::gcra::Bucket;
use crate::middleware::{NoOpMiddleware, RateLimitingMiddleware};
use crate::nonzero::NonZeroU32;
use crate::outcome::{outcome_follows, shaped};
use crate::quota::Quota;

verus! {

/// A rate limiter with a single state.
///
/// Each method that decides about cells takes the clock reading at which it is called.
#[derive(Debug)]
pub struct RateLimiter<P: Reference, MW = NoOpMiddleware> {
    quota: Quota,
    start: P,
    arrival: u64,
    middleware: PhantomData<MW>,
}

impl<P: Reference, MW> View for RateLimiter<P, MW> {
    type V = Bucket<P>;

    closed spec fn view(&self) -> Bucket<P> {
        Bucket { quota: self.quota, start: self.start, arrival: self.arrival as nat }
    }
}

impl<P: Reference> RateLimiter<P, NoOpMiddleware> {
    /// Constructs a rate limiter whose whole burst capacity is available.
    pub fn direct(quota: Quota, start: P) -> (limiter: Self)
        ensures
            limiter@ == Bucket::fresh(quota, start),
            limiter@.quota == quota,
            limiter@.start == start,
            limiter.is_valid(),
    {
        proof {
            use_type_invariant(&quota);
        }
        RateLimiter { quota, start, arrival: 0, middleware: PhantomData }
    }
}

impl<P: Reference, MW> RateLimiter<P, MW> {
    /// The state is that of a rate limiter.
    #[verifier::type_invariant]
    pub open spec fn is_valid(self) -> bool {
        self@.valid()
    }

    /// Exchanges the middleware; the state stays as it is.
    pub fn with_middleware<Outer>(self) -> (limiter: RateLimiter<P, Outer>)
        ensures
            limiter@ == self@,
            limiter.is_valid(),
    {
        proof {
            use_type_invariant(&self);
        }
        RateLimiter {
            quota: self.quota,
            start: self.start,
            arrival: self.arrival,
            middleware: PhantomData,
        }
    }

    /// Returns whether the rate limiter can decide about `cells` cells at `now`.
    ///
    /// This fails only if they conform, and would keep the rate limiter busy beyond the last point
    /// in time that can be expressed.
    pub fn covers(&self, now: P, cells: NonZeroU32) -> (covered: bool)
        ensures
            covered == self@.covers(now.reading() as nat, cells@ as nat),
    {
        self.quota.covers(self.start, self.arrival, now, cells)
    }

    /// Decides about `cells` cells in a single state transition.
    fn transition(&mut self, now: P, cells: NonZeroU32) -> (outcome: Outcome<P>)
        requires
            cells@ <= old(self)@.quota.burst(),
            old(self)@.covers(now.reading() as nat, cells@ as nat),
        ensures
            outcome.follows_from(old(self)@, now.reading() as nat, cells@ as nat),
            final(self)@ == old(self)@.decided(now.reading() as nat, cells@ as nat),
            final(self).is_valid(),
    {
        proof {
            use_type_invariant(&*self);
        }
        let (outcome, arrival) = self.quota.decide(self.start, self.arrival, now, cells);
        self.arrival = arrival;
        outcome
    }

    /// Decides about a single cell, and returns the evidence of the decision.
    pub fn check_with_decision(&mut self, now: P) -> (decision: Decision<P>)
        requires
            old(self)@.covers(now.reading() as nat, 1),
        ensures
            decision.reports(old(self)@, now, 1),
            final(self)@ == old(self)@.decided(now.reading() as nat, 1),
            final(self).is_valid(),
    {
        proof {
            use_type_invariant(&*self);
        }
        let cells = NonZeroU32::one();
        match self.transition(now, cells) {
            Outcome::Allowed { remaining_burst_capacity } => {
                Decision::allowed(self.quota, cells, now, remaining_burst_capacity)
            },
            Outcome::Denied { retry_at } => Decision::denied(self.quota, cells, now, retry_at),
        }
    }

    /// Decides about `cells` cells, which are let through together or not at all, and returns the
    /// evidence of the decision.
    ///
    /// Returns `InsufficientCapacity` if they exceed the burst size, and so could never conform.
    pub fn check_n_with_decision(&mut self, now: P, cells: NonZeroU32) -> (result: Result<
        Decision<P>,
        InsufficientCapacity,
    >)
        requires
            old(self)@.covers(now.reading() as nat, cells@ as nat),
        ensures
            match result {
                Ok(decision) => {
                    &&& cells@ <= old(self)@.quota.burst()
                    &&& decision.reports(old(self)@, now, cells@ as nat)
                },
                Err(error) => {
                    &&& cells@ > old(self)@.quota.burst()
                    &&& error.0 == old(self)@.quota.burst()
                },
            },
            final(self)@ == old(self)@.decided(now.reading() as nat, cells@ as nat),
            final(self).is_valid(),
    {
        proof {
            use_type_invariant(&*self);
        }
        let burst: u32 = self.quota.burst_size().get();
        if cells.get() > burst {
            proof {
                self@.law_excess_never_conforms(now.reading() as nat, cells@ as nat);
            }
            return Err(InsufficientCapacity(burst));
        }
        match self.transition(now, cells) {
            Outcome::Allowed { remaining_burst_capacity } => {
                Ok(Decision::allowed(self.quota, cells, now, remaining_burst_capacity))
            },
            Outcome::Denied { retry_at } => Ok(Decision::denied(self.quota, cells, now, retry_at)),
        }
    }
}

impl<P: Reference, MW: RateLimitingMiddleware<P>> RateLimiter<P, MW> {
    /// Decides about a single cell, and returns the outcome that the middleware makes of it.
    pub fn check(&mut self, now: P) -> (result: Result<
        MW::PositiveOutcome,
        MW::NegativeOutcome,
    >)
        requires
            old(self)@.covers(now.reading() as nat, 1),
        ensures
            outcome_follows::<P, MW>(result, old(self)@, now.reading() as nat, 1),
            final(self)@ == old(self)@.decided(now.reading() as nat, 1),
            final(self).is_valid(),
    {
        proof {
            use_type_invariant(&*self);
        }
        let outcome = self.transition(now, NonZeroU32::one());
        shaped::<P, MW>(self.quota, outcome)
    }

    /// Decides about `cells` cells, which are let through together or not at all.
    ///
    /// Returns `InsufficientCapacity` if they exceed the burst size, and so could never conform.
    pub fn check_n(&mut self, now: P, cells: NonZeroU32) -> (result: Result<
        Result<MW::PositiveOutcome, MW::NegativeOutcome>,
        InsufficientCapacity,
    >)
        requires
            old(self)@.covers(now.reading() as nat, cells@ as nat),
        ensures
            match result {
                Ok(result) => {
                    &&& cells@ <= old(self)@.quota.burst()
                    &&& outcome_follows::<P, MW>(
                        result,
                        old(self)@,
                        now.reading() as nat,
                        cells@ as nat,
                    )
                },
                Err(error) => {
                    &&& cells@ > old(self)@.quota.burst()
                    &&& error.0 == old(self)@.quota.burst()
                },
            },
            final(self)@ == old(self)@.decided(now.reading() as nat, cells@ as nat),
            final(self).is_valid(),
    {
        proof {
            use_type_invariant(&*self);
        }
        let burst: u32 = self.quota.burst_size().get();
        if cells.get() > burst {
            proof {
                self@.law_excess_never_conforms(now.reading() as nat, cells@ as nat);
            }
            return Err(InsufficientCapacity(burst));
        }
        let outcome = self.transition(now, cells);
        Ok(shaped::<P, MW>(self.quota, outcome))
    }
}

} // verus!
