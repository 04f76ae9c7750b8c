//! The few facts about [`Duration`] that the library relies on.
use core::time::Duration;
use vstd::prelude::*;

verus! {

/// The length of a duration in nanoseconds: what `Duration::as_nanos` returns.
pub uninterp spec fn duration_as_nanos(duration: Duration) -> nat;

/// The length of `Duration::MAX` in nanoseconds.
pub open spec fn longest_duration() -> nat {
    (u64::MAX * 1_000_000_000 + 999_999_999) as nat
}

/// `Duration::as_nanos` returns the length of the duration in nanoseconds.
pub assume_specification[ Duration::as_nanos ](duration: &Duration) -> (nanos: u128)
    ensures
        nanos == duration_as_nanos(*duration),
;

/// `Duration::from_nanos` returns the duration that is `nanos` nanoseconds long.
pub assume_specification[ Duration::from_nanos ](nanos: u64) -> (duration: Duration)
    ensures
        duration_as_nanos(duration) == nanos,
;

/// `Duration + Duration` returns the duration that is as long as both together. It panics where
/// that is longer than `Duration::MAX`, so the precondition rules this out.
#[verifier::external_body]
pub(crate) fn duration_sum(left: Duration, right: Duration) -> (sum: Duration)
    requires
        duration_as_nanos(left) + duration_as_nanos(right) <= longest_duration(),
    ensures
        duration_as_nanos(sum) == duration_as_nanos(left) + duration_as_nanos(right),
{
    left + right
}

} // verus!
