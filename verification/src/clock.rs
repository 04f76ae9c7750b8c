//! Points in time, as a clock reports them.
use vstd::prelude::*;

use crate::nanos::Nanos;

verus! {

/// The time that separates `later` from `earlier`, or zero if `later` comes first.
pub open spec fn time_between(earlier: u64, later: u64) -> u64 {
    if earlier < later {
        (later - earlier) as u64
    } else {
        0
    }
}

/// A measurement taken by a clock.
///
/// A measurement stands for a number of nanoseconds since the clock's epoch. Implementations have to
/// order two measurements, to tell the time between them, and to shift one into the future.
pub trait Reference: Copy {
    /// The number of nanoseconds between the clock's epoch and this measurement.
    spec fn reading(&self) -> u64;

    /// The measurement that the clock reports once `span` nanoseconds have passed.
    spec fn shifted(&self, span: u64) -> Self;

    /// Returns whether this measurement was taken before the other one.
    fn is_before(&self, other: &Self) -> (before: bool)
        ensures
            before == (self.reading() < other.reading()),
    ;

    /// Determines the time that separates two measurements of a clock.
    ///
    /// The subtraction saturates: if `earlier` is the later of the two, the result is zero.
    fn duration_since(&self, earlier: Self) -> (elapsed: Nanos)
        ensures
            elapsed@ == time_between(earlier.reading(), self.reading()),
    ;

    /// Returns the measurement that the clock reports once `span` has passed, or `None` if that
    /// point in time can not be expressed.
    fn checked_add(&self, span: Nanos) -> (later: Option<Self>)
        ensures
            later is Some <==> self.reading() + span@ <= u64::MAX,
            later matches Some(later) ==> {
                &&& later == self.shifted(span@)
                &&& later.reading() == self.reading() + span@
            },
    ;
}

impl Reference for Nanos {
    open spec fn reading(&self) -> u64 {
        self@
    }

    open spec fn shifted(&self, span: u64) -> Self {
        Nanos((self@ + span) as u64)
    }

    fn is_before(&self, other: &Self) -> (before: bool) {
        self.as_u64() < other.as_u64()
    }

    fn duration_since(&self, earlier: Self) -> (elapsed: Nanos) {
        if earlier.as_u64() < self.as_u64() {
            Nanos::new(self.as_u64() - earlier.as_u64())
        } else {
            Nanos::new(0)
        }
    }

    fn checked_add(&self, span: Nanos) -> (later: Option<Self>) {
        match self.as_u64().checked_add(span.as_u64()) {
            Some(nanos) => Some(Nanos::new(nanos)),
            None => None,
        }
    }
}

/// Returns the earlier one of two measurements, the first one if they are equal.
pub fn earlier_of<P: Reference>(left: P, right: P) -> (earlier: P)
    ensures
        earlier == if right.reading() < left.reading() {
            right
        } else {
            left
        },
{
    if right.is_before(&left) {
        right
    } else {
        left
    }
}

/// Returns the time from one measurement to another one that is not before it.
///
/// The clock is never asked for a negative distance here.
pub fn span_between<P: Reference>(earlier: P, later: P) -> (span: Nanos)
    requires
        earlier.reading() <= later.reading(),
    ensures
        span@ == later.reading() - earlier.reading(),
{
    later.duration_since(earlier)
}

/// Returns the time that has passed since `start`, or zero if `now` is before it.
pub(crate) fn elapsed_since<P: Reference>(start: P, now: P) -> (elapsed: u64)
    ensures
        elapsed == time_between(start.reading(), now.reading()),
{
    span_between(earlier_of(start, now), now).as_u64()
}

} // verus!
