//! Middlewares, which choose what the outcomes of a plain check are.
use vstd::prelude::*;

use crate::clock::Reference;
use crate::outcome::{NotUntil, StateSnapshot};
use crate::quota::Quota;

verus! {

/// Turns what is known of a plain check into the outcome that a rate limiter returns.
///
/// A middleware only shapes outcomes. It has no part in the decision, and none in a structured
/// [`Decision`][crate::Decision].
pub trait RateLimitingMiddleware<P: Reference> {
    /// What a check returns if the cells are let through.
    type PositiveOutcome;

    /// What a check returns if the cells are not let through.
    type NegativeOutcome;

    /// Whether `outcome` may be returned for cells that are let through under `quota`, and that leave
    /// room for `remaining` more.
    spec fn may_allow(quota: Quota, remaining: nat, outcome: Self::PositiveOutcome) -> bool;

    /// Whether `outcome` may be returned for cells that are not let through under `quota`, and that
    /// could conform at `retry_at`.
    spec fn may_disallow(quota: Quota, retry_at: P, outcome: Self::NegativeOutcome) -> bool;

    /// Returns the outcome for cells that are let through.
    fn allow(snapshot: StateSnapshot) -> (outcome: Self::PositiveOutcome)
        ensures
            Self::may_allow(snapshot.limit(), snapshot.left() as nat, outcome),
    ;

    /// Returns the outcome for cells that are not let through.
    fn disallow(negative: NotUntil<P>) -> (outcome: Self::NegativeOutcome)
        ensures
            Self::may_disallow(negative.limit(), negative.retry(), outcome),
    ;
}

/// Whether a middleware hands on the time at which cells could conform as it is.
pub open spec fn hands_on_retry_times<
    P: Reference,
    MW: RateLimitingMiddleware<P, NegativeOutcome = NotUntil<P>>,
>() -> bool {
    forall|quota: Quota, retry_at: P, outcome: NotUntil<P>| #[trigger]
        MW::may_disallow(quota, retry_at, outcome) ==> outcome.retry() == retry_at
}

/// The middleware of rate limiters that have none: a positive outcome tells nothing.
#[derive(Debug, Clone, Copy)]
pub struct NoOpMiddleware;

impl<P: Reference> RateLimitingMiddleware<P> for NoOpMiddleware {
    type PositiveOutcome = ();

    type NegativeOutcome = NotUntil<P>;

    open spec fn may_allow(quota: Quota, remaining: nat, outcome: ()) -> bool {
        true
    }

    open spec fn may_disallow(quota: Quota, retry_at: P, outcome: NotUntil<P>) -> bool {
        outcome.limit() == quota && outcome.retry() == retry_at
    }

    fn allow(snapshot: StateSnapshot) -> (outcome: ()) {
    }

    fn disallow(negative: NotUntil<P>) -> (outcome: NotUntil<P>) {
        negative
    }
}

/// A middleware that returns a snapshot of the state as the positive outcome.
#[derive(Debug, Clone, Copy)]
pub struct StateInformationMiddleware;

impl<P: Reference> RateLimitingMiddleware<P> for StateInformationMiddleware {
    type PositiveOutcome = StateSnapshot;

    type NegativeOutcome = NotUntil<P>;

    open spec fn may_allow(quota: Quota, remaining: nat, outcome: StateSnapshot) -> bool {
        outcome.limit() == quota && outcome.left() == remaining
    }

    open spec fn may_disallow(quota: Quota, retry_at: P, outcome: NotUntil<P>) -> bool {
        outcome.limit() == quota && outcome.retry() == retry_at
    }

    fn allow(snapshot: StateSnapshot) -> (outcome: StateSnapshot) {
        snapshot
    }

    fn disallow(negative: NotUntil<P>) -> (outcome: NotUntil<P>) {
        negative
    }
}

} // verus!
