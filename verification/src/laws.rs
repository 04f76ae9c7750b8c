//! What holds of rate-limiting decisions in general.
use core::time::Duration;
use vstd::arithmetic::div_mod::{
    lemma_div_by_multiple, lemma_div_is_ordered, lemma_fundamental_div_mod,
    lemma_hoist_over_denominator,
};
use vstd::arithmetic::mul::{
    lemma_mul_inequality, lemma_mul_is_commutative, lemma_mul_is_distributive_add,
    lemma_mul_is_distributive_sub, lemma_mul_strict_inequality,
};
use vstd::prelude::*;

use crate::clock::{time_between, Reference};
use crate::decision::{Decision, Outcome};
use crate::duration::duration_as_nanos;
use crate::future::{answered, answered_with_decision, Action, Wait};
use crate::gcra::{lemma_quotient_bounded, Bucket};
use crate::middleware::{
    hands_on_retry_times, NoOpMiddleware, RateLimitingMiddleware, StateInformationMiddleware,
};
use crate::nanos::Nanos;
use crate::outcome::{outcome_follows, NotUntil, StateSnapshot};
use crate::quota::Quota;

verus! {

impl<P: Reference> Bucket<P> {
    /// The state after `k` single-cell decisions, all of them made at `now`.
    pub open spec fn repeated(self, now: nat, k: nat) -> Bucket<P>
        decreases k,
    {
        if k == 0 {
            self
        } else {
            self.repeated(now, (k - 1) as nat).decided(now, 1)
        }
    }

    /// A rate limiter counts from the measurement at which it was set up, under the quota that it was
    /// set up with.
    pub proof fn law_counts_from_setup(quota: Quota, start: P, now: nat)
        ensures
            Bucket::fresh(quota, start).quota == quota,
            Bucket::fresh(quota, start).start == start,
            start.reading() <= now ==> Bucket::fresh(quota, start).elapsed(now) + start.reading()
                == now,
    {
    }

    /// The first request conforms exactly if it is within the burst size, at any time.
    pub proof fn law_first_request(quota: Quota, start: P, now: nat, n: nat)
        requires
            quota.is_valid(),
        ensures
            Bucket::fresh(quota, start).admits(now, n) <==> n <= quota.burst(),
    {
        let t = quota.interval() as int;
        if n <= quota.burst() {
            lemma_mul_inequality(n as int, quota.burst() as int, t);
        } else {
            lemma_mul_strict_inequality(quota.burst() as int, n as int, t);
        }
    }

    /// Once a new rate limiter has let its whole burst through, the room for each cell comes back
    /// after one interval more.
    pub proof fn law_replenishes_cell_by_cell(quota: Quota, start: P, now: nat, n: nat, later: nat)
        requires
            quota.is_valid(),
            start.reading() <= now,
            0 < n <= quota.burst(),
        ensures
            Bucket::fresh(quota, start).decided(now, quota.burst()).admits(later, n) <==> now + n
                * quota.interval() <= later,
    {
        let t = quota.interval() as int;
        lemma_mul_inequality(n as int, quota.burst() as int, t);
        assert(n * t >= 1) by (nonlinear_arith)
            requires
                n >= 1,
                t >= 1,
        ;
    }

    /// What conforms after `n` cells were let through follows from what conformed before: `m` cells
    /// conform at `later` exactly if both requests together fit into the burst, enlarged by what is
    /// replenished between them, and if they would also have conformed together without the first
    /// request being there. Where both together exceed the burst, the excess is what must be
    /// replenished beforehand.
    pub proof fn law_second_request(self, now: nat, n: nat, later: nat, m: nat)
        requires
            self.quota.is_valid(),
            0 < n,
            0 < m <= self.quota.burst(),
            self.admits(now, n),
        ensures
            ({
                let t = self.quota.interval();
                let burst = self.quota.burst();
                let start = self.start.reading() as nat;
                let first_at = if start < now { now } else { start };
                let second_at = if start < later { later } else { start };
                self.decided(now, n).admits(later, m) <==> {
                    &&& first_at + (n + m) * t <= second_at + burst * t
                    &&& if n + m <= burst {
                        self.admits(later, n + m)
                    } else {
                        self.admits((second_at - (n + m - burst) * t) as nat, burst)
                    }
                }
            }),
    {
        let t = self.quota.interval() as int;
        let burst = self.quota.burst() as int;
        let both = (n + m) as int;
        lemma_mul_is_distributive_add(t, n as int, m as int);
        lemma_mul_is_commutative(t, both);
        lemma_mul_is_commutative(t, n as int);
        lemma_mul_is_commutative(t, m as int);
        lemma_mul_inequality(m as int, burst, t);
        if n + m <= burst {
            lemma_mul_inequality(both, burst, t);
        } else {
            lemma_mul_strict_inequality(burst, both, t);
            lemma_mul_is_distributive_sub(t, both, burst);
            lemma_mul_is_commutative(t, both - burst);
            lemma_mul_is_commutative(t, burst);
        }
    }

    /// A decision changes neither the quota nor the start; a negative one changes nothing.
    pub proof fn law_decisions_keep_the_setup(self, now: nat, n: nat)
        ensures
            self.decided(now, n).quota == self.quota,
            self.decided(now, n).start == self.start,
            !self.admits(now, n) ==> self.decided(now, n) == self,
    {
    }

    /// A decision is out of range only if the cells conform, and then only if the clock can not
    /// express the time up to which they keep the bucket busy. It never is while the clock can
    /// express the time that it takes to replenish the whole burst.
    pub proof fn law_range(self, now: nat, n: nat)
        requires
            self.quota.is_valid(),
        ensures
            ({
                let t = self.quota.interval();
                let start = self.start.reading() as nat;
                let at = if start < now { now } else { start };
                &&& !self.admits(now, n) ==> self.covers(now, n)
                &&& at + self.quota.burst() * t <= u64::MAX ==> self.covers(now, n)
                &&& self.admits(now, n) ==> (self.covers(now, n) <==> at + n * t <= u64::MAX
                    && start + self.arrival + n * t <= u64::MAX)
            }),
    {
    }

    /// Cells conform exactly if there is room for them.
    pub proof fn law_conforms_iff_room(self, now: nat, n: nat)
        requires
            self.quota.is_valid(),
            n > 0,
        ensures
            self.admits(now, n) <==> n <= self.spare(now),
    {
        let t = self.quota.interval() as int;
        if self.busy_until(now) <= self.elapsed(now) + self.window() {
            let room = (self.elapsed(now) + self.window() - self.busy_until(now)) as int;
            if n * self.quota.interval() <= room {
                lemma_div_is_ordered(n * t, room, t);
                lemma_div_by_multiple(n as int, t);
            }
            if n <= room / t {
                lemma_mul_inequality(n as int, room / t, t);
                lemma_fundamental_div_mod(room, t);
                lemma_mul_is_commutative(t, room / t);
            }
        }
    }

    /// There is never room for more cells than the burst size.
    pub proof fn law_room_is_bounded(self, now: nat)
        requires
            self.quota.is_valid(),
        ensures
            self.spare(now) <= self.quota.burst(),
    {
        if self.busy_until(now) <= self.elapsed(now) + self.window() {
            lemma_quotient_bounded(
                (self.elapsed(now) + self.window() - self.busy_until(now)) as nat,
                self.quota.burst(),
                self.quota.interval(),
            );
        }
    }

    /// A rate limiter that was just set up has its whole burst capacity available.
    pub proof fn law_starts_full(quota: Quota, start: P, now: nat)
        requires
            quota.is_valid(),
        ensures
            Bucket::fresh(quota, start).spare(now) == quota.burst(),
    {
        lemma_div_by_multiple(quota.burst() as int, quota.interval() as int);
    }

    /// The capacity that remains after a positive decision is what was there, less the cells that
    /// were let through.
    pub proof fn law_letting_through_takes_room(self, now: nat, n: nat)
        requires
            self.quota.is_valid(),
            n > 0,
            self.admits(now, n),
        ensures
            self.after(now, n).spare(now) == self.spare(now) - n,
    {
        let t = self.quota.interval() as int;
        let room = (self.elapsed(now) + self.window() - self.busy_until(now)) as int;
        lemma_hoist_over_denominator(room - n * t, n as int, t as nat);
    }

    /// The capacity that a positive decision reports is exactly what could be let through in
    /// addition to it, immediately afterwards.
    pub proof fn law_remaining_is_what_still_conforms(self, now: nat, n: nat, more: nat)
        requires
            self.quota.is_valid(),
            self.admits(now, n),
            more > 0,
        ensures
            self.after(now, n).admits(now, more) <==> more <= self.after(now, n).spare(now),
    {
        self.after(now, n).law_conforms_iff_room(now, more);
    }

    /// Every decision leaves a valid state behind.
    pub proof fn law_decisions_keep_validity(self, now: nat, n: nat)
        requires
            self.valid(),
            self.covers(now, n),
        ensures
            self.decided(now, n).valid(),
    {
    }

    /// More cells than the burst size never conform, whatever the time and the state, and asking for
    /// them changes nothing.
    pub proof fn law_excess_never_conforms(self, now: nat, n: nat)
        requires
            self.quota.is_valid(),
            n > self.quota.burst(),
        ensures
            !self.admits(now, n),
            self.decided(now, n) == self,
    {
        lemma_mul_strict_inequality(self.quota.burst() as int, n as int, self.quota.interval() as int);
    }

    /// A negative decision consumes no capacity: whatever is asked next, and whenever, is answered
    /// as if it had not been made.
    pub proof fn law_denial_consumes_nothing(
        self,
        denied_at: nat,
        n: nat,
        now: nat,
        m: nat,
        outcome: Outcome<P>,
    )
        requires
            self.quota.is_valid(),
            !self.admits(denied_at, n),
        ensures
            outcome.follows_from(self.decided(denied_at, n), now, m) <==> outcome.follows_from(
                self,
                now,
                m,
            ),
            self.decided(denied_at, n).spare(now) == self.spare(now),
    {
    }

    /// The retry time of a negative decision is the earliest time at which the same cells conform:
    /// they do at that time and ever after, and never before.
    pub proof fn law_retry_at_is_earliest(self, denied_at: nat, n: nat, now: nat)
        requires
            self.quota.is_valid(),
            0 < n <= self.quota.burst(),
            !self.admits(denied_at, n),
        ensures
            denied_at < self.retry_reading(n),
            self.admits(now, n) <==> self.retry_reading(n) <= now,
    {
        lemma_mul_inequality(n as int, self.quota.burst() as int, self.quota.interval() as int);
    }

    /// At the retry time there is room for exactly the cells that were denied, not fewer and not
    /// more.
    pub proof fn law_retry_time_offers_exactly_the_request(self, denied_at: nat, n: nat)
        requires
            self.quota.is_valid(),
            0 < n <= self.quota.burst(),
            !self.admits(denied_at, n),
        ensures
            self.spare(self.retry_reading(n) as nat) == n,
    {
        self.law_retry_at_is_earliest(denied_at, n, denied_at);
        lemma_mul_inequality(n as int, self.quota.burst() as int, self.quota.interval() as int);
        lemma_div_by_multiple(n as int, self.quota.interval() as int);
    }

    /// A clock that stalls, advances or rewinds between two negative decisions about the same number
    /// of cells does not change the retry time that they report.
    pub proof fn law_denials_agree_on_retry(
        self,
        first_at: nat,
        second_at: nat,
        n: nat,
        first: Outcome<P>,
        second: Outcome<P>,
    )
        requires
            self.quota.is_valid(),
            first is Denied,
            second is Denied,
            first.follows_from(self, first_at, n),
            second.follows_from(self.decided(first_at, n), second_at, n),
        ensures
            first == second,
    {
    }

    /// As time passes, cells that conform keep conforming.
    pub proof fn law_waiting_never_hurts(self, now: nat, later: nat, n: nat)
        requires
            self.quota.is_valid(),
            n <= self.quota.burst(),
            self.admits(now, n),
            now <= later,
        ensures
            self.admits(later, n),
    {
        lemma_mul_inequality(n as int, self.quota.burst() as int, self.quota.interval() as int);
    }

    /// While the clock stands still, exactly as many single cells are let through as there was room
    /// for at first, no matter how many are asked for: those that come first. Each takes up the room
    /// for one, so each positive decision reports a different remaining capacity.
    pub proof fn law_frozen_clock(self, now: nat, k: nat)
        requires
            self.quota.is_valid(),
        ensures
            self.repeated(now, k).quota == self.quota,
            self.repeated(now, k).start == self.start,
            self.repeated(now, k).admits(now, 1) <==> k < self.spare(now),
            k < self.spare(now) ==> self.repeated(now, k).after(now, 1).spare(now)
                == self.spare(now) - k - 1,
            self.repeated(now, k).spare(now) == if k < self.spare(now) {
                self.spare(now) - k
            } else {
                0
            },
        decreases k,
    {
        if k > 0 {
            let before = (k - 1) as nat;
            self.law_frozen_clock(now, before);
        }
        self.repeated(now, k).law_conforms_iff_room(now, 1);
        if k < self.spare(now) {
            self.repeated(now, k).law_letting_through_takes_room(now, 1);
        }
    }

    /// Letting cells through together has the same effect as letting them through one by one.
    pub proof fn law_batch_is_singles(self, now: nat, n: nat)
        requires
            self.quota.is_valid(),
            n > 0,
            self.admits(now, n),
        ensures
            self.repeated(now, n) == self.decided(now, n),
    {
        self.law_conforms_iff_room(now, n);
        self.lemma_singles_add_up(now, n);
    }

    /// The theoretical arrival time after some single cells that there is room for.
    proof fn lemma_singles_add_up(self, now: nat, k: nat)
        requires
            self.quota.is_valid(),
            0 < k <= self.spare(now),
        ensures
            self.repeated(now, k) == self.after(now, k),
        decreases k,
    {
        let before = (k - 1) as nat;
        self.law_frozen_clock(now, before);
        if k > 1 {
            self.lemma_singles_add_up(now, before);
            let t = self.quota.interval();
            assert(k * t == before * t + t) by (nonlinear_arith)
                requires
                    k == before + 1,
            ;
        }
    }
}

impl<P: Reference> Outcome<P> {
    /// A decision either reports a remaining capacity or a retry time, never both.
    pub proof fn law_one_kind_of_evidence(self)
        ensures
            self is Allowed <==> self.remaining() is Some,
            self is Allowed <==> self.retry() is None,
            self matches Outcome::Allowed { remaining_burst_capacity } ==> self.remaining() == Some(
                remaining_burst_capacity,
            ),
            self matches Outcome::Denied { retry_at } ==> self.retry() == Some(retry_at),
    {
    }

    /// The time to wait is exactly the time until the retry time, and zero if that has come or if
    /// there was nothing to wait for.
    pub proof fn law_wait_ends_at_retry_time(self, from: u64)
        ensures
            self matches Outcome::Denied { retry_at } ==> {
                &&& from <= retry_at.reading() ==> from + self.wait_from(from)
                    == retry_at.reading()
                &&& self.wait_from(from) == 0 <==> retry_at.reading() <= from
            },
            self is Allowed ==> self.wait_from(from) == 0,
    {
    }

    /// Cells that were denied conform once the time to wait has passed, counted from any clock
    /// reading, unless other decisions have been made in the meantime. If there is any time to wait,
    /// they do not conform any earlier.
    pub proof fn law_waiting_suffices(self, state: Bucket<P>, denied_at: nat, n: nat, from: u64, now: nat)
        requires
            state.quota.is_valid(),
            0 < n <= state.quota.burst(),
            self is Denied,
            self.follows_from(state, denied_at, n),
        ensures
            from + self.wait_from(from) <= now ==> state.admits(now, n),
            self.wait_from(from) > 0 && now < from + self.wait_from(from) ==> !state.admits(now, n),
    {
        state.law_retry_at_is_earliest(denied_at, n, now);
    }
}

/// A structured decision tells the same as a plain check of the same cells, made at the same time in
/// the same state, whatever the middleware: it is positive exactly if the check is, and the
/// middleware is handed the quota, and the capacity or the retry time, that the decision reports.
pub proof fn law_decision_matches_check<P: Reference, MW: RateLimitingMiddleware<P>>(
    state: Bucket<P>,
    now: P,
    n: nat,
    decision: Decision<P>,
    result: Result<MW::PositiveOutcome, MW::NegativeOutcome>,
)
    requires
        decision.reports(state, now, n),
        outcome_follows::<P, MW>(result, state, now.reading() as nat, n),
    ensures
        result is Ok <==> decision@.outcome is Allowed,
        match result {
            Ok(outcome) => {
                &&& decision@.outcome.remaining() matches Some(remaining)
                &&& MW::may_allow(decision@.quota, remaining as nat, outcome)
            },
            Err(outcome) => {
                &&& decision@.outcome.retry() matches Some(retry_at)
                &&& MW::may_disallow(decision@.quota, retry_at, outcome)
            },
        },
{
}

/// With a middleware that returns a snapshot of the state, a structured decision and a plain check
/// report the same capacity or the same times, and the same quota.
pub proof fn law_decision_matches_snapshot<P: Reference>(
    state: Bucket<P>,
    now: P,
    n: nat,
    decision: Decision<P>,
    result: Result<StateSnapshot, NotUntil<P>>,
    from: u64,
)
    requires
        decision.reports(state, now, n),
        outcome_follows::<P, StateInformationMiddleware>(result, state, now.reading() as nat, n),
    ensures
        result is Ok <==> decision@.outcome is Allowed,
        match result {
            Ok(snapshot) => {
                &&& decision@.outcome.remaining() == Some(snapshot.left())
                &&& decision@.quota == snapshot.limit()
            },
            Err(negative) => {
                &&& decision@.outcome.retry() == Some(negative.retry())
                &&& decision@.outcome.wait_from(from) == negative.wait_from(from)
                &&& decision@.quota == negative.limit()
            },
        },
{
}

/// Without a middleware, a plain check is positive exactly if a structured decision is, and reports the
/// same times and the same quota if it is negative.
pub proof fn law_decision_matches_plain_outcome<P: Reference>(
    state: Bucket<P>,
    now: P,
    n: nat,
    decision: Decision<P>,
    result: Result<(), NotUntil<P>>,
    from: u64,
)
    requires
        decision.reports(state, now, n),
        outcome_follows::<P, NoOpMiddleware>(result, state, now.reading() as nat, n),
    ensures
        result is Ok <==> decision@.outcome is Allowed,
        result matches Err(negative) ==> {
            &&& decision@.outcome.retry() == Some(negative.retry())
            &&& decision@.outcome.wait_from(from) == negative.wait_from(from)
            &&& decision@.quota == negative.limit()
        },
{
}

/// The middlewares of this library hand on retry times as they are.
pub proof fn law_retry_times_are_handed_on<P: Reference>()
    ensures
        hands_on_retry_times::<P, NoOpMiddleware>(),
        hands_on_retry_times::<P, StateInformationMiddleware>(),
{
}

/// A wait for a structured decision goes like a plain wait: it resolves exactly when the plain one
/// does, with evidence of the same capacity, and sleeps for the same time when it does not.
pub proof fn law_waits_agree<P, MW>(
    state: Bucket<P>,
    now: P,
    n: nat,
    plain: Action<MW::PositiveOutcome>,
    plain_next: Wait<NotUntil<P>>,
    structured: Action<Decision<P>>,
    structured_next: Wait<Decision<P>>,
    from: u64,
) where P: Reference, MW: RateLimitingMiddleware<P, NegativeOutcome = NotUntil<P>>
    requires
        hands_on_retry_times::<P, MW>(),
        answered::<P, MW>(state, now, n, plain, plain_next),
        answered_with_decision(state, now, n, structured, structured_next),
    ensures
        plain is Resolve <==> structured is Resolve,
        plain matches Action::Resolve(outcome) ==> {
            &&& structured matches Action::Resolve(decision)
            &&& decision@.outcome.remaining() matches Some(remaining)
            &&& MW::may_allow(decision@.quota, remaining as nat, outcome)
        },
        plain_next matches Wait::Refused(negative) ==> {
            &&& structured_next matches Wait::Refused(decision)
            &&& decision@.outcome.wait_from(from) == negative.wait_from(from)
        },
{
}

/// A wait that was refused resolves when the rate limiter is asked again after the sleep, however
/// much jitter prolongs it, unless other decisions have been made in the meantime.
pub proof fn law_wait_resolves_after_sleep<P, MW>(
    state: Bucket<P>,
    refused_at: P,
    n: nat,
    action: Action<MW::PositiveOutcome>,
    negative: NotUntil<P>,
    measured_at: u64,
    jitter: nat,
    now: P,
    second: Action<MW::PositiveOutcome>,
    second_next: Wait<NotUntil<P>>,
) where P: Reference, MW: RateLimitingMiddleware<P, NegativeOutcome = NotUntil<P>>
    requires
        state.quota.is_valid(),
        0 < n <= state.quota.burst(),
        hands_on_retry_times::<P, MW>(),
        answered::<P, MW>(state, refused_at, n, action, Wait::Refused(negative)),
        measured_at + jitter + negative.wait_from(measured_at) <= now.reading(),
        answered::<P, MW>(state, now, n, second, second_next),
    ensures
        second is Resolve,
{
    state.law_retry_at_is_earliest(refused_at.reading() as nat, n, now.reading() as nat);
}

/// The time between two readings, added to the earlier one, gives the later one; it is zero if they
/// come in the wrong order.
pub proof fn law_time_between(earlier: u64, later: u64)
    ensures
        earlier <= later ==> earlier + time_between(earlier, later) == later,
        later <= earlier ==> time_between(earlier, later) == 0,
{
}

/// A number of nanoseconds, taken as a measurement, stands for just that many since the epoch.
pub proof fn law_nanos_are_readings(nanos: Nanos, span: u64)
    ensures
        nanos@ == nanos.0,
        nanos.reading() == nanos.0,
        nanos.0 + span <= u64::MAX ==> nanos.shifted(span).0 == nanos.0 + span,
        <Nanos as vstd::std_specs::convert::FromSpec<u64>>::from_spec(span).0 == span,
{
}

/// A decision records what was asked for, when, and under which quota, and is positive exactly if the
/// cells conform.
pub proof fn law_decision_records_the_request<P: Reference>(
    state: Bucket<P>,
    now: P,
    n: nat,
    decision: Decision<P>,
)
    requires
        decision.reports(state, now, n),
    ensures
        decision@.quota == state.quota,
        decision@.cells@ == n,
        decision@.at == now,
        decision@.outcome is Allowed <==> state.admits(now.reading() as nat, n),
{
}

/// The capacity that a positive decision reports is what could be let through in addition to it: so
/// many cells conform immediately afterwards, and no more.
pub proof fn law_reported_capacity_still_conforms<P: Reference>(
    state: Bucket<P>,
    now: P,
    n: nat,
    decision: Decision<P>,
    remaining: u32,
    more: nat,
)
    requires
        state.quota.is_valid(),
        decision.reports(state, now, n),
        decision@.outcome.remaining() == Some(remaining),
        more > 0,
    ensures
        state.decided(now.reading() as nat, n).admits(now.reading() as nat, more) <==> more
            <= remaining,
{
    state.law_remaining_is_what_still_conforms(now.reading() as nat, n, more);
}

/// The capacity that the snapshot of a plain check reports is what could be let through in addition.
pub proof fn law_snapshot_capacity_still_conforms<P: Reference>(
    state: Bucket<P>,
    now: nat,
    n: nat,
    snapshot: StateSnapshot,
    more: nat,
)
    requires
        state.quota.is_valid(),
        outcome_follows::<P, StateInformationMiddleware>(Ok(snapshot), state, now, n),
        more > 0,
    ensures
        snapshot.limit() == state.quota,
        state.decided(now, n).admits(now, more) <==> more <= snapshot.left(),
{
    state.law_remaining_is_what_still_conforms(now, n, more);
}

/// The retry time that a negative decision reports lies ahead, and is the earliest time at which the
/// same cells conform, if no other decision is made in the meantime. It is the start of the rate
/// limiter, shifted by the time between the two.
pub proof fn law_reported_retry_time_is_earliest<P: Reference>(
    state: Bucket<P>,
    now: P,
    n: nat,
    decision: Decision<P>,
    retry_at: P,
    later: nat,
)
    requires
        state.quota.is_valid(),
        0 < n <= state.quota.burst(),
        decision.reports(state, now, n),
        decision@.outcome.retry() == Some(retry_at),
    ensures
        now.reading() < retry_at.reading(),
        state.decided(now.reading() as nat, n).admits(later, n) <==> retry_at.reading() <= later,
        retry_at == state.start.shifted((retry_at.reading() - state.start.reading()) as u64),
{
    state.law_retry_at_is_earliest(now.reading() as nat, n, later);
}

/// The time that a refused plain check reports lies ahead, and is the earliest time at which the same
/// cells conform, if no other decision is made in the meantime.
pub proof fn law_refusal_time_is_earliest<P, MW>(
    state: Bucket<P>,
    now: nat,
    n: nat,
    negative: NotUntil<P>,
    later: nat,
) where P: Reference, MW: RateLimitingMiddleware<P, NegativeOutcome = NotUntil<P>>
    requires
        state.quota.is_valid(),
        0 < n <= state.quota.burst(),
        hands_on_retry_times::<P, MW>(),
        outcome_follows::<P, MW>(Err(negative), state, now, n),
    ensures
        now < negative.retry().reading(),
        state.decided(now, n).admits(later, n) <==> negative.retry().reading() <= later,
{
    state.law_retry_at_is_earliest(now, n, later);
}

/// A plain check is positive exactly if the cells conform, whatever the middleware.
pub proof fn law_check_is_conformity<P: Reference, MW: RateLimitingMiddleware<P>>(
    state: Bucket<P>,
    now: nat,
    n: nat,
    result: Result<MW::PositiveOutcome, MW::NegativeOutcome>,
)
    requires
        outcome_follows::<P, MW>(result, state, now, n),
    ensures
        result is Ok <==> state.admits(now, n),
{
}

/// The first two decisions of a rate limiter, in terms of what was asked for and when: the first is
/// positive exactly if it is within the burst size; after that the second is positive exactly if both
/// together fit into the burst, enlarged by one cell for each interval between them. A clock that is
/// behind the start counts as standing there.
pub proof fn law_first_two_decisions<P: Reference>(
    quota: Quota,
    start: P,
    now: P,
    n: nat,
    first: Decision<P>,
    later: P,
    m: nat,
    second: Decision<P>,
)
    requires
        quota.is_valid(),
        0 < n,
        0 < m <= quota.burst(),
        first.reports(Bucket::fresh(quota, start), now, n),
        second.reports(Bucket::fresh(quota, start).decided(now.reading() as nat, n), later, m),
    ensures
        ({
            let first_at = if start.reading() < now.reading() {
                now.reading()
            } else {
                start.reading()
            };
            let second_at = if start.reading() < later.reading() {
                later.reading()
            } else {
                start.reading()
            };
            &&& first@.outcome is Allowed <==> n <= quota.burst()
            &&& first@.outcome is Denied ==> second@.outcome is Allowed
            &&& first@.outcome is Allowed ==> (second@.outcome is Allowed <==> first_at + (n + m)
                * quota.interval() <= second_at + quota.burst() * quota.interval())
        }),
{
    let fresh = Bucket::fresh(quota, start);
    let at = later.reading() as nat;
    Bucket::law_first_request(quota, start, now.reading() as nat, n);
    Bucket::law_first_request(quota, start, at, m);
    if n <= quota.burst() {
        let t = quota.interval();
        let second_at = if start.reading() < at {
            at
        } else {
            start.reading() as nat
        };
        fresh.law_second_request(now.reading() as nat, n, at, m);
        Bucket::law_first_request(quota, start, at, n + m);
        Bucket::law_first_request(
            quota,
            start,
            (second_at - (n + m - quota.burst()) * t) as nat,
            quota.burst(),
        );
    }
}

/// Asking in a wait is a plain check: its positive outcome is what the wait resolves to, and its
/// negative outcome is kept. A wait never sleeps without asking first.
pub proof fn law_asking_is_a_check<P: Reference, MW: RateLimitingMiddleware<P>>(
    state: Bucket<P>,
    now: P,
    n: nat,
    action: Action<MW::PositiveOutcome>,
    next: Wait<MW::NegativeOutcome>,
)
    requires
        answered::<P, MW>(state, now, n, action, next),
    ensures
        state.admits(now.reading() as nat, n) ==> {
            &&& next is Asking
            &&& action matches Action::Resolve(outcome)
            &&& outcome_follows::<P, MW>(Ok(outcome), state, now.reading() as nat, n)
        },
        !state.admits(now.reading() as nat, n) ==> {
            &&& action is ReadClock
            &&& next matches Wait::Refused(outcome)
            &&& outcome_follows::<P, MW>(Err(outcome), state, now.reading() as nat, n)
        },
{
}

/// Asking in a structured wait gives a decision: a positive one is what the wait resolves to, and a
/// negative one is kept.
pub proof fn law_asking_is_a_decision<P: Reference>(
    state: Bucket<P>,
    now: P,
    n: nat,
    action: Action<Decision<P>>,
    next: Wait<Decision<P>>,
)
    requires
        answered_with_decision(state, now, n, action, next),
    ensures
        state.admits(now.reading() as nat, n) ==> {
            &&& next is Asking
            &&& action matches Action::Resolve(decision)
            &&& decision@.outcome is Allowed
            &&& decision.reports(state, now, n)
        },
        !state.admits(now.reading() as nat, n) ==> {
            &&& action is ReadClock
            &&& next matches Wait::Refused(decision)
            &&& decision@.outcome is Denied
            &&& decision.reports(state, now, n)
        },
{
}

/// The sleep of a refused wait ends at the time that the refusal reports, or at once if that has
/// come, and the jitter is added to it.
pub proof fn law_sleep_ends_at_retry_time<P: Reference, T>(
    negative: NotUntil<P>,
    now: P,
    jitter: u64,
    action: Action<T>,
)
    requires
        action.sleeps_for((jitter + negative.wait_from(now.reading())) as nat),
    ensures
        ({
            let retry = negative.retry().reading();
            &&& action matches Action::Sleep(delay)
            &&& now.reading() + duration_as_nanos(delay) == jitter + if now.reading() < retry {
                retry
            } else {
                now.reading()
            }
        }),
{
}

/// The sleep of a structured wait ends at the retry time of the decision that refused it, or at once
/// if that has come.
pub proof fn law_structured_sleep_ends_at_retry_time<P: Reference, T>(
    decision: Decision<P>,
    retry_at: P,
    now: P,
    action: Action<T>,
)
    requires
        decision@.outcome.retry() == Some(retry_at),
        action.sleeps_for(decision@.outcome.wait_from(now.reading()) as nat),
    ensures
        ({
            let retry = retry_at.reading();
            &&& action matches Action::Sleep(delay)
            &&& now.reading() + duration_as_nanos(delay) == if now.reading() < retry {
                retry
            } else {
                now.reading()
            }
        }),
{
}

/// A round of a plain wait: it is refused, sleeps, and asks again. If no other decision is made in
/// the meantime, it resolves if it asks at the end of the sleep or later, and does not resolve if it
/// asks before the time that the refusal reported.
pub proof fn law_round_of_a_wait<P, MW>(
    state: Bucket<P>,
    refused_at: P,
    n: nat,
    action: Action<MW::PositiveOutcome>,
    negative: NotUntil<P>,
    measured_at: P,
    jitter: u64,
    sleep: Action<MW::PositiveOutcome>,
    delay: Duration,
    now: P,
    second: Action<MW::PositiveOutcome>,
    second_next: Wait<NotUntil<P>>,
) where P: Reference, MW: RateLimitingMiddleware<P, NegativeOutcome = NotUntil<P>>
    requires
        state.quota.is_valid(),
        0 < n <= state.quota.burst(),
        hands_on_retry_times::<P, MW>(),
        answered::<P, MW>(state, refused_at, n, action, Wait::Refused(negative)),
        sleep.sleeps_for((jitter + negative.wait_from(measured_at.reading())) as nat),
        sleep == Action::<MW::PositiveOutcome>::Sleep(delay),
        answered::<P, MW>(
            state.decided(refused_at.reading() as nat, n),
            now,
            n,
            second,
            second_next,
        ),
    ensures
        measured_at.reading() + duration_as_nanos(delay) <= now.reading() ==> second is Resolve,
        now.reading() < negative.retry().reading() ==> second is ReadClock,
{
    state.law_retry_at_is_earliest(refused_at.reading() as nat, n, now.reading() as nat);
}

/// A round of a structured wait: it is refused, sleeps, and asks again. If no other decision is made
/// in the meantime, it resolves if it asks at the end of the sleep or later, and does not resolve if
/// it asks before the retry time.
pub proof fn law_round_of_a_structured_wait<P: Reference>(
    state: Bucket<P>,
    refused_at: P,
    n: nat,
    action: Action<Decision<P>>,
    decision: Decision<P>,
    retry_at: P,
    measured_at: P,
    sleep: Action<Decision<P>>,
    delay: Duration,
    now: P,
    second: Action<Decision<P>>,
    second_next: Wait<Decision<P>>,
)
    requires
        state.quota.is_valid(),
        0 < n <= state.quota.burst(),
        answered_with_decision(state, refused_at, n, action, Wait::Refused(decision)),
        decision@.outcome.retry() == Some(retry_at),
        sleep.sleeps_for(decision@.outcome.wait_from(measured_at.reading()) as nat),
        sleep == Action::<Decision<P>>::Sleep(delay),
        answered_with_decision(
            state.decided(refused_at.reading() as nat, n),
            now,
            n,
            second,
            second_next,
        ),
    ensures
        measured_at.reading() + duration_as_nanos(delay) <= now.reading() ==> second is Resolve,
        now.reading() < retry_at.reading() ==> second is ReadClock,
{
    state.law_retry_at_is_earliest(refused_at.reading() as nat, n, now.reading() as nat);
}

} // verus!
