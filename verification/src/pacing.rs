//! Pacing of the run loop against real time.
//!
//! The run loop executes `INSTRUCTIONS_PER_FRAME` instructions, updates the
//! timers and then waits until the frame's share of real time is used up.
//! Measuring time and waiting are left to the caller; this module decides
//! how long the wait is.

use vstd::prelude::*;

verus! {

/// The time left of a frame's budget once `elapsed` of it has been used, if
/// the budget has not been overrun.
pub open spec fn time_left(budget: u64, elapsed: u64) -> Option<u64> {
    if elapsed <= budget {
        Some((budget - elapsed) as u64)
    } else {
        None
    }
}

/// How long to wait at the end of a frame that was given `budget` and has
/// used `elapsed`, both in the same unit of time.
///
/// A frame that finished early waits for the rest of its budget. A frame
/// that overran its budget does not wait at all.
pub fn remaining_frame_time(budget: u64, elapsed: u64) -> (wait: Option<u64>)
    ensures
        wait == time_left(budget, elapsed),
{
    if elapsed <= budget {
        Some(budget - elapsed)
    } else {
        None
    }
}

} // verus!
