//! Counts that can not be zero.
use vstd::prelude::*;

verus! {

/// A `u32` that is known not to be zero.
#[derive(Debug, Clone, Copy, PartialEq, Eq, PartialOrd, Ord, Hash, Structural)]
pub struct NonZeroU32 {
    value: u32,
}

impl View for NonZeroU32 {
    type V = u32;

    closed spec fn view(&self) -> u32 {
        self.value
    }
}

impl NonZeroU32 {
    /// The value is not zero.
    #[verifier::type_invariant]
    pub open spec fn is_valid(self) -> bool {
        self@ > 0
    }

    /// Returns `value` if it is not zero.
    pub fn new(value: u32) -> (count: Option<Self>)
        ensures
            count is Some <==> value > 0,
            count matches Some(count) ==> count@ == value,
    {
        if value > 0 {
            Some(NonZeroU32 { value })
        } else {
            None
        }
    }

    /// Returns the count `1`.
    pub fn one() -> (count: Self)
        ensures
            count@ == 1,
    {
        NonZeroU32 { value: 1 }
    }

    /// Returns the value.
    pub fn get(&self) -> (value: u32)
        ensures
            value == self@,
            value > 0,
    {
        proof {
            use_type_invariant(self);
        }
        self.value
    }
}

} // verus!
