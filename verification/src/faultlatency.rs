//! Timing results of the page-fault latency probes.

use vstd::prelude::*;

verus! {

use core::time::Duration;

/// How long one probe took: mapping a region, the first write (which
/// faults the page in), and a second write to the already-faulted page.
pub struct FaultLatency {
    pub mmap: Duration,
    pub fault: Duration,
    pub second_write: Duration,
}

impl FaultLatency {
    /// Records the three measured durations.
    pub fn new(mmap: Duration, fault: Duration, second_write: Duration) -> (r: Self)
        ensures
            r.mmap == mmap,
            r.fault == fault,
            r.second_write == second_write,
    {
        Self { mmap, fault, second_write }
    }
}

} // verus!
