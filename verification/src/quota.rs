//! Quotas: how many cells a rate limiter lets through, and how fast it recovers.
use vstd::arithmetic::div_mod::{
    lemma_div_is_ordered_by_denominator, lemma_fundamental_div_mod,
};
use vstd::arithmetic::mul::lemma_mul_is_distributive_add;
use vstd::prelude::*;

use crate::nanos::Nanos;
use crate::nonzero::NonZeroU32;

verus! {

/// The number of nanoseconds in a second.
pub const NANOS_PER_SECOND: u64 = 1_000_000_000;

/// A rate-limiting quota.
///
/// A quota names the number of cells that can be let through at once (the burst size), and the
/// interval in which the room for one cell is replenished.
#[derive(Debug, Clone, Copy, PartialEq, Eq, Structural)]
pub struct Quota {
    max_burst: NonZeroU32,
    replenish_1_per: Nanos,
}

impl Quota {
    /// The number of cells that can be let through at once.
    pub closed spec fn burst(self) -> nat {
        self.max_burst@ as nat
    }

    /// The number of nanoseconds in which the room for one cell is replenished.
    pub closed spec fn interval(self) -> nat {
        self.replenish_1_per@ as nat
    }

    /// A cell takes between a nanosecond and a second to replenish.
    #[verifier::type_invariant]
    pub open spec fn is_valid(self) -> bool {
        &&& 0 < self.burst() <= u32::MAX
        &&& 0 < self.interval() <= NANOS_PER_SECOND
    }

    /// Constructs a quota for `max_burst` cells per second, which is also the burst size.
    ///
    /// Replenishing is measured in whole nanoseconds, so no more than a billion cells can be
    /// allowed per second; [`try_per_second`][Quota::try_per_second] tests for that.
    pub fn per_second(max_burst: NonZeroU32) -> (quota: Self)
        requires
            max_burst@ <= NANOS_PER_SECOND,
        ensures
            quota.burst() == max_burst@,
            quota.interval() == NANOS_PER_SECOND as nat / max_burst@ as nat,
            max_burst@ * quota.interval() <= 1_000_000_000,
            1_000_000_000 < max_burst@ * (quota.interval() + 1),
            quota.is_valid(),
    {
        let cells: u64 = max_burst.get() as u64;
        proof {
            let total: int = NANOS_PER_SECOND as int;
            lemma_div_is_ordered_by_denominator(total, 1, cells as int);
            lemma_div_is_ordered_by_denominator(total, cells as int, total);
            lemma_fundamental_div_mod(total, cells as int);
            lemma_mul_is_distributive_add(cells as int, total / cells as int, 1);
        }
        let interval: u64 = NANOS_PER_SECOND / cells;
        Quota { max_burst, replenish_1_per: Nanos::new(interval) }
    }

    /// Constructs a quota for `max_burst` cells per second, which is also the burst size, or returns
    /// `None` if those are more than a billion.
    pub fn try_per_second(max_burst: NonZeroU32) -> (quota: Option<Self>)
        ensures
            quota is Some <==> max_burst@ <= 1_000_000_000,
            quota matches Some(quota) ==> {
                &&& quota.burst() == max_burst@
                &&& quota.interval() == NANOS_PER_SECOND as nat / max_burst@ as nat
                &&& max_burst@ * quota.interval() <= 1_000_000_000
                &&& 1_000_000_000 < max_burst@ * (quota.interval() + 1)
                &&& quota.is_valid()
            },
    {
        if max_burst.get() as u64 <= NANOS_PER_SECOND {
            Some(Quota::per_second(max_burst))
        } else {
            None
        }
    }

    /// Adjusts the burst size; the interval stays as it is.
    pub fn allow_burst(self, max_burst: NonZeroU32) -> (quota: Self)
        ensures
            quota.burst() == max_burst@,
            quota.interval() == self.interval(),
            quota.is_valid(),
    {
        proof {
            use_type_invariant(&self);
            use_type_invariant(&max_burst);
        }
        Quota { max_burst, replenish_1_per: self.replenish_1_per }
    }

    /// Returns the number of cells that can be let through at once.
    pub fn burst_size(&self) -> (max_burst: NonZeroU32)
        ensures
            max_burst@ == self.burst(),
    {
        self.max_burst
    }

    /// Returns the interval in which the room for one cell is replenished, in nanoseconds.
    pub(crate) fn replenish_nanos(&self) -> (interval: u64)
        ensures
            interval == self.interval(),
            self.is_valid(),
    {
        proof {
            use_type_invariant(self);
        }
        self.replenish_1_per.as_u64()
    }
}

} // verus!
