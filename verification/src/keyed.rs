//! Keyed rate limiters, which have a state for each key.
use core::marker::PhantomData;
use std::collections::HashMap;
use std::hash::Hash;
use vstd::prelude::*;
use vstd::std_specs::hash::obeys_key_model;

use crate::clock::Reference;
use crate::decision::{Decision, Outcome};
use crate::errors::InsufficientCapacity;
use crate::future::{answered_with_decision, Action, Wait};
use crate::gcra::Bucket;
use crate::middleware::{NoOpMiddleware, RateLimitingMiddleware};
use crate::nonzero::NonZeroU32;
use crate::outcome::{outcome_follows, shaped};
use crate::quota::Quota;

verus! {

/// A rate limiter with a state for each key.
///
/// Each method that decides about cells takes the clock reading at which it is called.
#[derive(Debug)]
#[verifier::reject_recursive_types(K)]
pub struct KeyedRateLimiter<K, P: Reference, MW = NoOpMiddleware> {
    quota: Quota,
    start: P,
    arrivals: HashMap<K, u64>,
    middleware: PhantomData<MW>,
}

impl<K: Eq + Hash, P: Reference> KeyedRateLimiter<K, P, NoOpMiddleware> {
    /// Constructs a rate limiter whose whole burst capacity is available for each key.
    pub fn keyed(quota: Quota, start: P) -> (limiter: Self)
        ensures
            forall|key: K| #[trigger] limiter.bucket(key) == Bucket::fresh(quota, start),
            forall|key: K|
                (#[trigger] limiter.bucket(key)).quota == quota && limiter.bucket(key).start
                    == start,
            limiter.is_valid(),
    {
        proof {
            use_type_invariant(&quota);
        }
        KeyedRateLimiter { quota, start, arrivals: HashMap::new(), middleware: PhantomData }
    }
}

impl<K: Eq + Hash, P: Reference, MW> KeyedRateLimiter<K, P, MW> {
    /// The state of a key. A key that was never decided about has its whole burst capacity available.
    pub closed spec fn bucket(self, key: K) -> Bucket<P> {
        Bucket {
            quota: self.quota,
            start: self.start,
            arrival: if self.arrivals@.contains_key(key) {
                self.arrivals@[key] as nat
            } else {
                0
            },
        }
    }

    /// The state of each key is that of a rate limiter.
    pub open spec fn is_valid(self) -> bool {
        forall|key: K| (#[trigger] self.bucket(key)).valid()
    }

    /// Exchanges the middleware; the state of each key stays as it is.
    pub fn with_middleware<Outer>(self) -> (limiter: KeyedRateLimiter<K, P, Outer>)
        ensures
            forall|key: K| #[trigger] limiter.bucket(key) == self.bucket(key),
    {
        KeyedRateLimiter {
            quota: self.quota,
            start: self.start,
            arrivals: self.arrivals,
            middleware: PhantomData,
        }
    }

    /// Returns the theoretical arrival time of a key, counted from the start.
    fn arrival(&self, key: &K) -> (arrival: u64)
        requires
            obeys_key_model::<K>(),
        ensures
            arrival == self.bucket(*key).arrival,
    {
        match self.arrivals.get(key) {
            Some(arrival) => *arrival,
            None => 0,
        }
    }

    /// Returns whether the rate limiter can decide about `cells` cells for a key at `now`.
    ///
    /// This fails only if they conform, and would keep the key busy beyond the last point in time
    /// that can be expressed.
    pub fn covers(&self, key: &K, now: P, cells: NonZeroU32) -> (covered: bool)
        requires
            obeys_key_model::<K>(),
        ensures
            covered == self.bucket(*key).covers(now.reading() as nat, cells@ as nat),
    {
        self.quota.covers(self.start, self.arrival(key), now, cells)
    }

    /// Decides about `cells` cells for a key in a single state transition.
    fn transition(&mut self, key: K, now: P, cells: NonZeroU32) -> (outcome: Outcome<P>)
        requires
            obeys_key_model::<K>(),
            old(self).is_valid(),
            cells@ <= old(self).bucket(key).quota.burst(),
            old(self).bucket(key).covers(now.reading() as nat, cells@ as nat),
        ensures
            outcome.follows_from(old(self).bucket(key), now.reading() as nat, cells@ as nat),
            final(self).bucket(key) == old(self).bucket(key).decided(
                now.reading() as nat,
                cells@ as nat,
            ),
            forall|other: K|
                other != key ==> #[trigger] final(self).bucket(other) == old(self).bucket(other),
            final(self).is_valid(),
    {
        let arrival: u64 = self.arrival(&key);
        proof {
            assert(self.bucket(key).valid());
        }
        let (outcome, arrival) = self.quota.decide(self.start, arrival, now, cells);
        self.arrivals.insert(key, arrival);
        proof {
            assert forall|k: K| (#[trigger] self.bucket(k)).valid() by {
                assert(old(self).bucket(k).valid());
            }
        }
        outcome
    }

    /// Decides about a single cell for a key, and returns the evidence of the decision.
    pub fn check_key_with_decision(&mut self, key: K, now: P) -> (decision: Decision<P>)
        requires
            obeys_key_model::<K>(),
            old(self).is_valid(),
            old(self).bucket(key).covers(now.reading() as nat, 1),
        ensures
            decision.reports(old(self).bucket(key), now, 1),
            final(self).bucket(key) == old(self).bucket(key).decided(now.reading() as nat, 1),
            forall|other: K|
                other != key ==> #[trigger] final(self).bucket(other) == old(self).bucket(other),
            final(self).is_valid(),
    {
        let cells = NonZeroU32::one();
        match self.transition(key, now, cells) {
            Outcome::Allowed { remaining_burst_capacity } => {
                Decision::allowed(self.quota, cells, now, remaining_burst_capacity)
            },
            Outcome::Denied { retry_at } => Decision::denied(self.quota, cells, now, retry_at),
        }
    }

    /// Decides about `cells` cells for a key, which are let through together or not at all, and
    /// returns the evidence of the decision.
    ///
    /// Returns `InsufficientCapacity` if they exceed the burst size, and so could never conform.
    pub fn check_key_n_with_decision(&mut self, key: K, now: P, cells: NonZeroU32) -> (result: Result<
        Decision<P>,
        InsufficientCapacity,
    >)
        requires
            obeys_key_model::<K>(),
            old(self).is_valid(),
            old(self).bucket(key).covers(now.reading() as nat, cells@ as nat),
        ensures
            match result {
                Ok(decision) => {
                    &&& cells@ <= old(self).bucket(key).quota.burst()
                    &&& decision.reports(
                        old(self).bucket(key),
                        now,
                        cells@ as nat,
                    )
                },
                Err(error) => {
                    &&& cells@ > old(self).bucket(key).quota.burst()
                    &&& error.0 == old(self).bucket(key).quota.burst()
                },
            },
            final(self).bucket(key) == old(self).bucket(key).decided(
                now.reading() as nat,
                cells@ as nat,
            ),
            forall|other: K|
                other != key ==> #[trigger] final(self).bucket(other) == old(self).bucket(other),
            final(self).is_valid(),
    {
        let burst: u32 = self.quota.burst_size().get();
        if cells.get() > burst {
            proof {
                self.bucket(key).law_excess_never_conforms(
                    now.reading() as nat,
                    cells@ as nat,
                );
            }
            return Err(InsufficientCapacity(burst));
        }
        match self.transition(key, now, cells) {
            Outcome::Allowed { remaining_burst_capacity } => {
                Ok(Decision::allowed(self.quota, cells, now, remaining_burst_capacity))
            },
            Outcome::Denied { retry_at } => Ok(Decision::denied(self.quota, cells, now, retry_at)),
        }
    }

    /// Goes on with a wait that resolves with a structured [`Decision`] as soon as the rate limiter
    /// allows a cell for the key.
    pub fn until_key_ready_with_decision(
        &mut self,
        wait: &mut Wait<Decision<P>>,
        key: K,
        now: P,
    ) -> (action: Action<Decision<P>>)
        requires
            obeys_key_model::<K>(),
            old(self).is_valid(),
            *old(wait) is Asking ==> old(self).bucket(key).covers(now.reading() as nat, 1),
        ensures
            match *old(wait) {
                Wait::Asking => {
                    &&& answered_with_decision(
                        old(self).bucket(key),
                        now,
                        1,
                        action,
                        *final(wait),
                    )
                    &&& final(self).bucket(key) == old(self).bucket(key).decided(
                        now.reading() as nat,
                        1,
                    )
                },
                Wait::Refused(decision) => {
                    &&& action.sleeps_for(decision@.outcome.wait_from(now.reading()) as nat)
                    &&& *final(wait) is Asking
                    &&& final(self).bucket(key) == old(self).bucket(key)
                },
            },
            forall|other: K|
                other != key ==> #[trigger] final(self).bucket(other) == old(self).bucket(other),
            final(self).is_valid(),
    {
        if let Wait::Refused(decision) = wait {
            let delay = decision.wait_time_from(now);
            *wait = Wait::Asking;
            return Action::Sleep(delay);
        }
        let decision = self.check_key_with_decision(key, now);
        if decision.is_allowed() {
            return Action::Resolve(decision);
        }
        *wait = Wait::Refused(decision);
        Action::ReadClock
    }

    /// Goes on with a wait that resolves with a structured [`Decision`] as soon as the rate limiter
    /// allows `cells` cells for the key.
    ///
    /// Returns `InsufficientCapacity` if they exceed the maximum capacity of the rate limiter.
    pub fn until_key_n_ready_with_decision(
        &mut self,
        wait: &mut Wait<Decision<P>>,
        key: K,
        now: P,
        cells: NonZeroU32,
    ) -> (result: Result<Action<Decision<P>>, InsufficientCapacity>)
        requires
            obeys_key_model::<K>(),
            old(self).is_valid(),
            *old(wait) is Asking ==> old(self).bucket(key).covers(
                now.reading() as nat,
                cells@ as nat,
            ),
        ensures
            match *old(wait) {
                Wait::Asking => {
                    &&& result is Ok <==> cells@ <= old(self).bucket(key).quota.burst()
                    &&& match result {
                        Ok(action) => answered_with_decision(
                            old(self).bucket(key),
                            now,
                            cells@ as nat,
                            action,
                            *final(wait),
                        ),
                        Err(error) => {
                            &&& error.0 == old(self).bucket(key).quota.burst()
                            &&& *final(wait) is Asking
                        },
                    }
                    &&& final(self).bucket(key) == old(self).bucket(key).decided(
                        now.reading() as nat,
                        cells@ as nat,
                    )
                },
                Wait::Refused(decision) => {
                    &&& result matches Ok(action)
                    &&& action.sleeps_for(decision@.outcome.wait_from(now.reading()) as nat)
                    &&& *final(wait) is Asking
                    &&& final(self).bucket(key) == old(self).bucket(key)
                },
            },
            forall|other: K|
                other != key ==> #[trigger] final(self).bucket(other) == old(self).bucket(other),
            final(self).is_valid(),
    {
        if let Wait::Refused(decision) = wait {
            let delay = decision.wait_time_from(now);
            *wait = Wait::Asking;
            return Ok(Action::Sleep(delay));
        }
        let decision = self.check_key_n_with_decision(key, now, cells)?;
        if decision.is_allowed() {
            return Ok(Action::Resolve(decision));
        }
        *wait = Wait::Refused(decision);
        Ok(Action::ReadClock)
    }
}

impl<K: Eq + Hash, P: Reference, MW: RateLimitingMiddleware<P>> KeyedRateLimiter<K, P, MW> {
    /// Decides about a single cell for a key, and returns the outcome that the middleware makes of
    /// it.
    pub fn check_key(&mut self, key: K, now: P) -> (result: Result<
        MW::PositiveOutcome,
        MW::NegativeOutcome,
    >)
        requires
            obeys_key_model::<K>(),
            old(self).is_valid(),
            old(self).bucket(key).covers(now.reading() as nat, 1),
        ensures
            outcome_follows::<P, MW>(result, old(self).bucket(key), now.reading() as nat, 1),
            final(self).bucket(key) == old(self).bucket(key).decided(now.reading() as nat, 1),
            forall|other: K|
                other != key ==> #[trigger] final(self).bucket(other) == old(self).bucket(other),
            final(self).is_valid(),
    {
        let outcome = self.transition(key, now, NonZeroU32::one());
        shaped::<P, MW>(self.quota, outcome)
    }
}

} // verus!
