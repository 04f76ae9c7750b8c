//! Errors.
use vstd::prelude::*;

verus! {

/// The error that comes of asking for more cells at once than can ever conform.
///
/// It carries the largest number of cells that can conform at once.
#[derive(Debug, Clone, Copy, PartialEq, Eq, Structural)]
pub struct InsufficientCapacity(pub u32);

impl InsufficientCapacity {
    /// Describes the error.
    pub fn to_string(&self) -> (message: String)
        ensures
            message@ == "the number of cells exceeds the capacity of the rate limiter"@,
    {
        "the number of cells exceeds the capacity of the rate limiter".to_owned()
    }
}

} // verus!
