//! The progress counter: a count of finished work units that many workers
//! raise and one observer reads.
//!
//! The counter is shared, so nothing is stated of the value a reader meets:
//! other holders may raise it at any moment. What each phase reports in all
//! is stated where the phase is described.

use std::sync::atomic::AtomicUsize;
use std::sync::atomic::Ordering;
use std::sync::Arc;
use vstd::prelude::*;

verus! {

/// A fresh counter, at zero.
pub fn new_counter() -> (counter: Arc<AtomicUsize>) {
    Arc::new(AtomicUsize::new(0))
}

/// Reports one finished unit. The addition is atomic and unordered with
/// respect to other memory accesses.
pub fn report_unit(counter: &Arc<AtomicUsize>) {
    counter.fetch_add(1, Ordering::Relaxed);
}

/// Reads the counter. The value may already be stale when it is returned.
pub fn sample(counter: &Arc<AtomicUsize>) -> (units: usize) {
    counter.load(Ordering::Relaxed)
}

} // verus!
