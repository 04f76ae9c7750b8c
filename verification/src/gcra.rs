//! The generic cell rate algorithm, which decides about cells one transition at a time.
use vstd::arithmetic::div_mod::{lemma_div_by_multiple, lemma_div_is_ordered};
use vstd::arithmetic::mul::{lemma_mul_inequality, lemma_mul_upper_bound};
use vstd::prelude::*;

use crate::clock::{elapsed_since, Reference};
use crate::decision::Outcome;
use crate::nanos::Nanos;
use crate::nonzero::NonZeroU32;
use crate::quota::{Quota, NANOS_PER_SECOND};

verus! {

/// The state of a rate limiter, and what its decisions follow from.
///
/// All times are in nanoseconds; readings count from the epoch of the clock.
pub struct Bucket<P: Reference> {
    /// The quota of the rate limiter.
    pub quota: Quota,
    /// The measurement at which the rate limiter was set up.
    pub start: P,
    /// The theoretical arrival time, counted from the start: the time at which all cells let through
    /// so far are replenished.
    pub arrival: nat,
}

impl<P: Reference> Bucket<P> {
    /// The state of a rate limiter that was just set up.
    pub open spec fn fresh(quota: Quota, start: P) -> Bucket<P> {
        Bucket { quota, start, arrival: 0 }
    }

    /// What holds of the state of every rate limiter.
    pub open spec fn valid(self) -> bool {
        &&& self.quota.is_valid()
        &&& self.start.reading() + self.arrival <= u64::MAX
    }

    /// The time in which the room for `n` cells is replenished.
    pub open spec fn weight(self, n: nat) -> nat {
        n * self.quota.interval()
    }

    /// The time in which an exhausted bucket is replenished.
    pub open spec fn window(self) -> nat {
        self.weight(self.quota.burst())
    }

    /// The time since the start. A clock that was set back behind the start counts as standing there.
    pub open spec fn elapsed(self, now: nat) -> nat {
        if self.start.reading() < now {
            (now - self.start.reading()) as nat
        } else {
            0
        }
    }

    /// The time, counted from the start, until which the cells let through so far keep the bucket
    /// busy.
    pub open spec fn busy_until(self, now: nat) -> nat {
        if self.arrival < self.elapsed(now) {
            self.elapsed(now)
        } else {
            self.arrival
        }
    }

    /// Whether `n` cells conform at `now`: letting them through keeps the bucket busy for no longer
    /// than it takes to replenish it.
    pub open spec fn admits(self, now: nat, n: nat) -> bool {
        self.busy_until(now) + self.weight(n) <= self.elapsed(now) + self.window()
    }

    /// The state after `n` cells were let through at `now`.
    pub open spec fn after(self, now: nat, n: nat) -> Bucket<P> {
        Bucket { arrival: self.busy_until(now) + self.weight(n), ..self }
    }

    /// The state after a decision about `n` cells at `now`: only a positive one takes up capacity.
    pub open spec fn decided(self, now: nat, n: nat) -> Bucket<P> {
        if self.admits(now, n) {
            self.after(now, n)
        } else {
            self
        }
    }

    /// Whether the clock can express the time up to which `n` cells would keep the bucket busy, if
    /// they conform at `now`.
    pub open spec fn covers(self, now: nat, n: nat) -> bool {
        self.admits(now, n) ==> self.start.reading() + self.after(now, n).arrival <= u64::MAX
    }

    /// The number of cells there is room for at `now`.
    pub open spec fn spare(self, now: nat) -> nat {
        if self.busy_until(now) <= self.elapsed(now) + self.window() {
            (self.elapsed(now) + self.window() - self.busy_until(now)) as nat
                / self.quota.interval()
        } else {
            0
        }
    }

    /// The time, counted from the start, at which `n` cells conform if they do not conform yet.
    pub open spec fn earliest(self, n: nat) -> int {
        self.arrival + self.weight(n) - self.window()
    }

    /// The measurement at which `n` cells conform, if they do not conform yet.
    pub open spec fn retry_at(self, n: nat) -> P {
        self.start.shifted(self.earliest(n) as u64)
    }

    /// The reading at which `n` cells conform, if they do not conform yet.
    pub open spec fn retry_reading(self, n: nat) -> int {
        self.start.reading() + self.earliest(n)
    }
}

impl Quota {
    /// Returns the time in which the room for `cells` cells is replenished.
    fn weight(&self, cells: NonZeroU32) -> (weight: u64)
        ensures
            weight == cells@ * self.interval(),
            self.is_valid(),
    {
        let n: u64 = cells.get() as u64;
        let interval: u64 = self.replenish_nanos();
        proof {
            lemma_weight_fits(n as nat, interval as nat);
        }
        n * interval
    }

    /// Returns whether the clock can express the time up to which `cells` cells would keep the
    /// bucket busy, if they conform at `now`.
    pub(crate) fn covers<P: Reference>(
        &self,
        start: P,
        arrival: u64,
        now: P,
        cells: NonZeroU32,
    ) -> (covered: bool)
        ensures
            covered == (Bucket { quota: *self, start, arrival: arrival as nat }).covers(
                now.reading() as nat,
                cells@ as nat,
            ),
    {
        let elapsed: u64 = elapsed_since(start, now);
        let window: u64 = self.weight(self.burst_size());
        let weight: u64 = self.weight(cells);
        let busy_until: u64 = if arrival < elapsed {
            elapsed
        } else {
            arrival
        };
        if weight > window || busy_until - elapsed > window - weight {
            return true;
        }
        match start.checked_add(Nanos::new(busy_until)) {
            Some(busy_until) => busy_until.checked_add(Nanos::new(weight)).is_some(),
            None => false,
        }
    }

    /// Decides about `cells` cells at `now`, in the state of a rate limiter that was set up at
    /// `start`. Returns the outcome, and the theoretical arrival time after the decision.
    pub(crate) fn decide<P: Reference>(
        &self,
        start: P,
        arrival: u64,
        now: P,
        cells: NonZeroU32,
    ) -> (decided: (Outcome<P>, u64))
        requires
            cells@ <= self.burst(),
            (Bucket { quota: *self, start, arrival: arrival as nat }).valid(),
            (Bucket { quota: *self, start, arrival: arrival as nat }).covers(
                now.reading() as nat,
                cells@ as nat,
            ),
        ensures
            decided.0.follows_from(
                (Bucket { quota: *self, start, arrival: arrival as nat }),
                now.reading() as nat,
                cells@ as nat,
            ),
            decided.1 == (Bucket { quota: *self, start, arrival: arrival as nat }).decided(
                now.reading() as nat,
                cells@ as nat,
            ).arrival,
    {
        let elapsed: u64 = elapsed_since(start, now);
        let window: u64 = self.weight(self.burst_size());
        let weight: u64 = self.weight(cells);
        proof {
            lemma_mul_inequality(cells@ as int, self.burst() as int, self.interval() as int);
        }
        let slack: u64 = window - weight;
        let busy_until: u64 = if arrival < elapsed {
            elapsed
        } else {
            arrival
        };
        if busy_until - elapsed > slack {
            let retry_at = start.checked_add(Nanos::new(arrival - slack)).unwrap();
            return (Outcome::Denied { retry_at }, arrival);
        }
        let room: u64 = slack - (busy_until - elapsed);
        let remaining: u64 = room / self.replenish_nanos();
        proof {
            lemma_quotient_bounded(room as nat, self.burst(), self.interval());
        }
        (Outcome::Allowed { remaining_burst_capacity: remaining as u32 }, busy_until + weight)
    }
}

/// The time to replenish any number of cells can be expressed.
proof fn lemma_weight_fits(n: nat, interval: nat)
    requires
        n <= u32::MAX,
        interval <= NANOS_PER_SECOND,
    ensures
        n * interval <= u64::MAX,
{
    lemma_mul_upper_bound(
        n as int,
        u32::MAX as int,
        interval as int,
        NANOS_PER_SECOND as int,
    );
}

/// A span no longer than `burst` intervals holds at most `burst` intervals.
pub proof fn lemma_quotient_bounded(span: nat, burst: nat, interval: nat)
    requires
        0 < interval,
        span <= burst * interval,
    ensures
        span / interval <= burst,
{
    lemma_div_is_ordered(span as int, (burst * interval) as int, interval as int);
    lemma_div_by_multiple(burst as int, interval as int);
}

} // verus!
