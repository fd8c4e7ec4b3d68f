//! The progress monitor's decisions.
//!
//! The monitor samples a counter, shows the sample, and then either ends or
//! rests and samples again. Sampling, showing and resting belong to whoever
//! runs the loop; what to do after each sample is decided here.

use vstd::prelude::*;

verus! {

/// The time between two samples, in milliseconds.
pub const POLL_INTERVAL_MS: u64 = 100;

/// What the monitor does after it has tried to show a sample.
#[derive(Clone, Copy, Debug, PartialEq, Eq, Structural)]
pub enum MonitorStep {
    /// The display failed: report the failure and end, leaving the observed
    /// phase alone.
    Abandon,
    /// The target is reached: show the finished state, announce completion
    /// and end.
    Finish,
    /// Rest for [`POLL_INTERVAL_MS`] and sample again.
    Rest,
}

/// Whether a sample has reached the target.
pub open spec fn reached(sampled: usize, target: usize) -> bool {
    sampled >= target
}

/// Decides what follows a sample. `shown` says whether the display took the
/// sample. A failed display ends the monitor at once; otherwise the first
/// sample at or beyond the target ends it with the finishing render, and any
/// other sample is followed by a rest.
pub fn after_sample(sampled: usize, target: usize, shown: bool) -> (step: MonitorStep)
    ensures
        step == (if !shown {
            MonitorStep::Abandon
        } else if reached(sampled, target) {
            MonitorStep::Finish
        } else {
            MonitorStep::Rest
        }),
{
    if !shown {
        MonitorStep::Abandon
    } else if sampled >= target {
        MonitorStep::Finish
    } else {
        MonitorStep::Rest
    }
}

} // verus!
