//! The verified face of the synthetic workload driver.
//!
//! The driver exercises instrumented calls at a fixed interval so that the
//! probes have something to observe.  Reading the clock, syncing files and
//! sleeping are I/O and stay with the caller; only the driver's own state
//! lives here.

use vstd::prelude::*;

verus! {

/// Handle for the workload tick that samples the monotonic clock.  The
/// sampling itself is a system call performed by the caller; the handle
/// carries no state of its own.
pub struct ClockTiker;

impl ClockTiker {
    /// A fresh clock-sampling handle.
    pub fn new() -> ClockTiker {
        ClockTiker
    }
}

} // verus!
