//! Time measured in nanoseconds.
use core::time::Duration;
use vstd::prelude::*;

use crate::duration::duration_as_nanos;

verus! {

/// A number of nanoseconds: a span of time, or a point in time counted from some epoch.
#[derive(Debug, Clone, Copy, PartialEq, Eq, PartialOrd, Ord, Hash, Structural)]
pub struct Nanos(pub u64);

impl View for Nanos {
    type V = u64;

    open spec fn view(&self) -> u64 {
        self.0
    }
}

impl Nanos {
    /// Returns a span of `nanos` nanoseconds.
    pub fn new(nanos: u64) -> (span: Self)
        ensures
            span@ == nanos,
    {
        Nanos(nanos)
    }

    /// Returns the number of nanoseconds.
    pub fn as_u64(&self) -> (nanos: u64)
        ensures
            nanos == self@,
    {
        self.0
    }

    /// Returns the span that is as long as `duration`, or `None` if that is too long to be expressed.
    pub fn from_duration(duration: Duration) -> (span: Option<Self>)
        ensures
            span is Some <==> duration_as_nanos(duration) <= u64::MAX,
            span matches Some(span) ==> span@ == duration_as_nanos(duration),
    {
        let nanos: u128 = duration.as_nanos();
        if nanos <= u64::MAX as u128 {
            Some(Nanos(nanos as u64))
        } else {
            None
        }
    }

    /// Returns the span as a [`Duration`].
    pub fn to_duration(&self) -> (duration: Duration)
        ensures
            duration_as_nanos(duration) == self@,
    {
        Duration::from_nanos(self.0)
    }
}

impl From<u64> for Nanos {
    fn from(nanos: u64) -> (span: Self) {
        Nanos(nanos)
    }
}

impl vstd::std_specs::convert::FromSpecImpl<u64> for Nanos {
    open spec fn obeys_from_spec() -> bool {
        true
    }

    open spec fn from_spec(nanos: u64) -> Nanos {
        Nanos(nanos)
    }
}

} // verus!
