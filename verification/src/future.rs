//! Waiting until a rate limiter lets cells through.
//!
//! A task that waits for a rate limiter alternates between asking the rate limiter and sleeping.
//! The methods here decide what such a task does next. Each takes the state of the wait and a fresh
//! clock reading, and returns the [`Action`] to perform; the task performs it, reads the clock, and
//! calls the same method again until it says [`Action::Resolve`].
use core::time::Duration;
use vstd::prelude::*;

use crate::clock::Reference;
use crate::decision::Decision;
use crate::direct::RateLimiter;
use crate::duration::{duration_as_nanos, duration_sum};
use crate::errors::InsufficientCapacity;
use crate::gcra::Bucket;
use crate::middleware::RateLimitingMiddleware;
use crate::nanos::Nanos;
use crate::nonzero::NonZeroU32;
use crate::outcome::{outcome_follows, NotUntil};

verus! {

/// The state of a task that waits for a rate limiter; `N` is a negative outcome.
#[derive(Debug, PartialEq, Eq)]
pub enum Wait<N> {
    /// The rate limiter is to be asked. Each wait starts here.
    Asking,
    /// The rate limiter has refused, and the time to sleep is to be determined.
    Refused(N),
}

/// What a task that waits for a rate limiter does next; `T` is a positive outcome.
#[derive(Debug, PartialEq, Eq)]
pub enum Action<T> {
    /// Read the clock, and go on at once.
    ReadClock,
    /// Sleep for the given time, then read the clock and go on.
    Sleep(Duration),
    /// The wait is over.
    Resolve(T),
}

impl<T> Action<T> {
    /// Whether this is to sleep for the given number of nanoseconds.
    pub open spec fn sleeps_for(self, nanos: nat) -> bool {
        self matches Action::Sleep(delay) && duration_as_nanos(delay) == nanos
    }
}

/// Returns the wait, prolonged by a randomized `jitter`.
fn jittered(jitter: Nanos, wait: Duration) -> (delay: Duration)
    requires
        duration_as_nanos(wait) <= u64::MAX,
    ensures
        duration_as_nanos(delay) == jitter@ + duration_as_nanos(wait),
{
    duration_sum(jitter.to_duration(), wait)
}

/// Goes on with a wait after the rate limiter was asked: a positive outcome, whatever it is, is what
/// the wait resolves to, and a negative one is kept for the time to sleep.
pub fn after_check<T, N>(wait: &mut Wait<N>, result: Result<T, N>) -> (action: Action<T>)
    ensures
        match result {
            Ok(outcome) => {
                &&& action == Action::Resolve(outcome)
                &&& *final(wait) == *old(wait)
            },
            Err(outcome) => {
                &&& action is ReadClock
                &&& *final(wait) == Wait::Refused(outcome)
            },
        },
{
    match result {
        Ok(outcome) => Action::Resolve(outcome),
        Err(outcome) => {
            *wait = Wait::Refused(outcome);
            Action::ReadClock
        },
    }
}

/// Whether asking a rate limiter about `n` cells has led to `action` and has left the wait in the
/// state `next`: a positive outcome ends the wait, a negative one is kept for the time to sleep.
pub open spec fn answered<P: Reference, MW: RateLimitingMiddleware<P>>(
    state: Bucket<P>,
    now: P,
    n: nat,
    action: Action<MW::PositiveOutcome>,
    next: Wait<MW::NegativeOutcome>,
) -> bool {
    match action {
        Action::Resolve(outcome) => {
            &&& next is Asking
            &&& outcome_follows::<P, MW>(Ok(outcome), state, now.reading() as nat, n)
        },
        Action::ReadClock => {
            &&& next matches Wait::Refused(negative)
            &&& outcome_follows::<P, MW>(Err(negative), state, now.reading() as nat, n)
        },
        Action::Sleep(_) => false,
    }
}

/// Whether asking a rate limiter for a decision about `n` cells has led to `action` and has left
/// the wait in the state `next`: a positive decision ends the wait, a negative one is kept for the
/// time to sleep.
pub open spec fn answered_with_decision<P: Reference>(
    state: Bucket<P>,
    now: P,
    n: nat,
    action: Action<Decision<P>>,
    next: Wait<Decision<P>>,
) -> bool {
    match action {
        Action::Resolve(decision) => {
            &&& next == Wait::<Decision<P>>::Asking
            &&& decision@.outcome is Allowed
            &&& decision.reports(state, now, n)
        },
        Action::ReadClock => {
            &&& next matches Wait::Refused(decision)
            &&& decision@.outcome is Denied
            &&& decision.reports(state, now, n)
        },
        Action::Sleep(_) => false,
    }
}

impl<P, MW> RateLimiter<P, MW> where
    P: Reference,
    MW: RateLimitingMiddleware<P, NegativeOutcome = NotUntil<P>>,
 {
    /// Goes on with a wait that resolves as soon as the rate limiter allows a cell.
    ///
    /// The rate limiter is asked; the wait either resolves immediately, or else sleeps until the
    /// earliest time at which the cell could conform, after which the rate limiter is asked again.
    ///
    /// If multiple tasks wait for the same rate limiter, it is advisable to use
    /// [`until_ready_with_jitter`][RateLimiter::until_ready_with_jitter], to avoid thundering herds.
    pub fn until_ready(&mut self, wait: &mut Wait<NotUntil<P>>, now: P) -> (action: Action<
        MW::PositiveOutcome,
    >)
        requires
            *old(wait) is Asking ==> old(self)@.covers(now.reading() as nat, 1),
        ensures
            match *old(wait) {
                Wait::Asking => {
                    &&& answered::<P, MW>(old(self)@, now, 1, action, *final(wait))
                    &&& final(self)@ == old(self)@.decided(now.reading() as nat, 1)
                },
                Wait::Refused(negative) => {
                    &&& action.sleeps_for(negative.wait_from(now.reading()) as nat)
                    &&& *final(wait) is Asking
                    &&& final(self)@ == old(self)@
                },
            },
            final(self).is_valid(),
    {
        self.until_ready_with_jitter(wait, now, Nanos::new(0))
    }

    /// Goes on with a wait that resolves as soon as the rate limiter allows a cell, with a
    /// randomized wait period.
    ///
    /// This is similar to [`until_ready`][RateLimiter::until_ready], except that `jitter`, which the
    /// task draws at random, is added to each time to sleep. This helps to reduce the likelihood of
    /// thundering herd effects if multiple tasks wait for the same rate limiter.
    pub fn until_ready_with_jitter(
        &mut self,
        wait: &mut Wait<NotUntil<P>>,
        now: P,
        jitter: Nanos,
    ) -> (action: Action<MW::PositiveOutcome>)
        requires
            *old(wait) is Asking ==> old(self)@.covers(now.reading() as nat, 1),
        ensures
            match *old(wait) {
                Wait::Asking => {
                    &&& answered::<P, MW>(old(self)@, now, 1, action, *final(wait))
                    &&& final(self)@ == old(self)@.decided(now.reading() as nat, 1)
                },
                Wait::Refused(negative) => {
                    &&& action.sleeps_for((jitter@ + negative.wait_from(now.reading())) as nat)
                    &&& *final(wait) is Asking
                    &&& final(self)@ == old(self)@
                },
            },
            final(self).is_valid(),
    {
        proof {
            use_type_invariant(&*self);
        }
        if let Wait::Refused(negative) = wait {
            let delay = jittered(jitter, negative.wait_time_from(now));
            *wait = Wait::Asking;
            return Action::Sleep(delay);
        }
        after_check(wait, self.check(now))
    }

    /// Goes on with a wait that resolves as soon as the rate limiter allows `cells` cells.
    ///
    /// Returns `InsufficientCapacity` if they exceed the maximum capacity of the rate limiter.
    pub fn until_n_ready(&mut self, wait: &mut Wait<NotUntil<P>>, now: P, cells: NonZeroU32) -> (result:
        Result<Action<MW::PositiveOutcome>, InsufficientCapacity>)
        requires
            *old(wait) is Asking ==> old(self)@.covers(now.reading() as nat, cells@ as nat),
        ensures
            match *old(wait) {
                Wait::Asking => {
                    &&& result is Ok <==> cells@ <= old(self)@.quota.burst()
                    &&& match result {
                        Ok(action) => answered::<P, MW>(
                            old(self)@,
                            now,
                            cells@ as nat,
                            action,
                            *final(wait),
                        ),
                        Err(error) => {
                            &&& error.0 == old(self)@.quota.burst()
                            &&& *final(wait) is Asking
                        },
                    }
                    &&& final(self)@ == old(self)@.decided(now.reading() as nat, cells@ as nat)
                },
                Wait::Refused(negative) => {
                    &&& result matches Ok(action)
                    &&& action.sleeps_for(negative.wait_from(now.reading()) as nat)
                    &&& *final(wait) is Asking
                    &&& final(self)@ == old(self)@
                },
            },
            final(self).is_valid(),
    {
        self.until_n_ready_with_jitter(wait, now, cells, Nanos::new(0))
    }

    /// Goes on with a wait that resolves as soon as the rate limiter allows `cells` cells, with a
    /// randomized wait period.
    ///
    /// This is similar to
    /// [`until_ready_with_jitter`][RateLimiter::until_ready_with_jitter], except that it waits for
    /// an arbitrary number of cells.
    ///
    /// Returns `InsufficientCapacity` if they exceed the maximum capacity of the rate limiter.
    pub fn until_n_ready_with_jitter(
        &mut self,
        wait: &mut Wait<NotUntil<P>>,
        now: P,
        cells: NonZeroU32,
        jitter: Nanos,
    ) -> (result: Result<Action<MW::PositiveOutcome>, InsufficientCapacity>)
        requires
            *old(wait) is Asking ==> old(self)@.covers(now.reading() as nat, cells@ as nat),
        ensures
            match *old(wait) {
                Wait::Asking => {
                    &&& result is Ok <==> cells@ <= old(self)@.quota.burst()
                    &&& match result {
                        Ok(action) => answered::<P, MW>(
                            old(self)@,
                            now,
                            cells@ as nat,
                            action,
                            *final(wait),
                        ),
                        Err(error) => {
                            &&& error.0 == old(self)@.quota.burst()
                            &&& *final(wait) is Asking
                        },
                    }
                    &&& final(self)@ == old(self)@.decided(now.reading() as nat, cells@ as nat)
                },
                Wait::Refused(negative) => {
                    &&& result matches Ok(action)
                    &&& action.sleeps_for((jitter@ + negative.wait_from(now.reading())) as nat)
                    &&& *final(wait) is Asking
                    &&& final(self)@ == old(self)@
                },
            },
            final(self).is_valid(),
    {
        proof {
            use_type_invariant(&*self);
        }
        if let Wait::Refused(negative) = wait {
            let delay = jittered(jitter, negative.wait_time_from(now));
            *wait = Wait::Asking;
            return Ok(Action::Sleep(delay));
        }
        Ok(after_check(wait, self.check_n(now, cells)?))
    }
}

impl<P: Reference, MW> RateLimiter<P, MW> {
    /// Goes on with a wait that resolves with a structured [`Decision`] as soon as the rate limiter
    /// allows a cell.
    ///
    /// This behaves like [`until_ready`][RateLimiter::until_ready], but resolves to the final,
    /// positive decision: the same structured evidence that
    /// [`check_with_decision`][RateLimiter::check_with_decision] returns.
    pub fn until_ready_with_decision(&mut self, wait: &mut Wait<Decision<P>>, now: P) -> (action:
        Action<Decision<P>>)
        requires
            *old(wait) is Asking ==> old(self)@.covers(now.reading() as nat, 1),
        ensures
            match *old(wait) {
                Wait::Asking => {
                    &&& answered_with_decision(old(self)@, now, 1, action, *final(wait))
                    &&& final(self)@ == old(self)@.decided(now.reading() as nat, 1)
                },
                Wait::Refused(decision) => {
                    &&& action.sleeps_for(decision@.outcome.wait_from(now.reading()) as nat)
                    &&& *final(wait) is Asking
                    &&& final(self)@ == old(self)@
                },
            },
            final(self).is_valid(),
    {
        proof {
            use_type_invariant(&*self);
        }
        if let Wait::Refused(decision) = wait {
            let delay = decision.wait_time_from(now);
            *wait = Wait::Asking;
            return Action::Sleep(delay);
        }
        let decision = self.check_with_decision(now);
        if decision.is_allowed() {
            return Action::Resolve(decision);
        }
        *wait = Wait::Refused(decision);
        Action::ReadClock
    }

    /// Goes on with a wait that resolves with a structured [`Decision`] as soon as the rate limiter
    /// allows `cells` cells.
    ///
    /// This behaves like [`until_n_ready`][RateLimiter::until_n_ready], but resolves to the final,
    /// positive decision.
    ///
    /// Returns `InsufficientCapacity` if they exceed the maximum capacity of the rate limiter.
    pub fn until_n_ready_with_decision(
        &mut self,
        wait: &mut Wait<Decision<P>>,
        now: P,
        cells: NonZeroU32,
    ) -> (result: Result<Action<Decision<P>>, InsufficientCapacity>)
        requires
            *old(wait) is Asking ==> old(self)@.covers(now.reading() as nat, cells@ as nat),
        ensures
            match *old(wait) {
                Wait::Asking => {
                    &&& result is Ok <==> cells@ <= old(self)@.quota.burst()
                    &&& match result {
                        Ok(action) => answered_with_decision(
                            old(self)@,
                            now,
                            cells@ as nat,
                            action,
                            *final(wait),
                        ),
                        Err(error) => {
                            &&& error.0 == old(self)@.quota.burst()
                            &&& *final(wait) is Asking
                        },
                    }
                    &&& final(self)@ == old(self)@.decided(now.reading() as nat, cells@ as nat)
                },
                Wait::Refused(decision) => {
                    &&& result matches Ok(action)
                    &&& action.sleeps_for(decision@.outcome.wait_from(now.reading()) as nat)
                    &&& *final(wait) is Asking
                    &&& final(self)@ == old(self)@
                },
            },
            final(self).is_valid(),
    {
        proof {
            use_type_invariant(&*self);
        }
        if let Wait::Refused(decision) = wait {
            let delay = decision.wait_time_from(now);
            *wait = Wait::Asking;
            return Ok(Action::Sleep(delay));
        }
        let decision = self.check_n_with_decision(now, cells)?;
        if decision.is_allowed() {
            return Ok(Action::Resolve(decision));
        }
        *wait = Wait::Refused(decision);
        Ok(Action::ReadClock)
    }
}

} // verus!
