//! Server-stamped timestamps.
//!
//! The in-memory backend stamps entities with a logical clock: a counter
//! that each store advances on every successful mutation.  The counter
//! saturates at the top of `u64`, a value no real workload reaches.

use vstd::prelude::*;

verus! {

/// A server-assigned creation or modification instant, measured on the
/// owning store's logical clock.
#[derive(Clone, Copy, Debug, PartialEq, Eq, Structural)]
pub struct Timestamp(pub u64);

/// The clock value that follows `t`.
pub open spec fn spec_tick(t: u64) -> u64 {
    if t < u64::MAX {
        (t + 1) as u64
    } else {
        t
    }
}

/// Advances a logical clock by one step, saturating at the top of `u64`.
pub fn tick(t: u64) -> (r: u64)
    ensures
        r == spec_tick(t),
        r >= t,
{
    if t < u64::MAX {
        t + 1
    } else {
        t
    }
}

} // verus!
