//! Cooperative cancellation of long scans.
use std::sync::atomic::{AtomicBool, Ordering};
use vstd::prelude::*;

verus! {

/// Whether another thread has asked the scan to stop. Nothing is known of the
/// answer: the flag may change at any time.
pub fn stop_requested(stop: &AtomicBool) -> bool {
    stop.load(Ordering::Relaxed)
}

} // verus!
