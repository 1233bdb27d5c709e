//! Growth of counters that wrap around.
use vstd::prelude::*;

verus! {

/// How much a counter grew from `previous` to `current`; a counter that
/// went down is taken to have wrapped around at `u64::MAX`.
pub open spec fn counter_delta(current: u64, previous: u64) -> u64 {
    if current < previous {
        (u64::MAX - previous + current) as u64
    } else {
        (current - previous) as u64
    }
}

/// The growth of a counter from `previous` to `current` (see
/// `counter_delta`).
pub fn counter_delta_with_overflow(current: u64, previous: u64) -> (r: u64)
    ensures
        r == counter_delta(current, previous),
{
    if current < previous {
        u64::MAX - previous + current
    } else {
        current - previous
    }
}

} // verus!
