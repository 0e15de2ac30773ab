//! Cooperative cancellation flag shared by every pipeline worker.
//!
//! A run starts with the flag raised; requesting shutdown lowers it exactly
//! once and it is never raised again.  Workers only ever poll it, so nothing
//! can be promised about the value any single observation returns — each
//! loop must be correct whatever the poll reports.

use vstd::prelude::*;

use core::sync::atomic::AtomicBool;
use core::sync::atomic::Ordering;

verus! {

/// Shared run/stop flag, polled cooperatively by every worker loop.
pub struct ShutdownFlag {
    running: AtomicBool,
}

impl ShutdownFlag {
    /// Creates the flag in the "running" state.
    pub fn new() -> ShutdownFlag {
        ShutdownFlag { running: AtomicBool::new(true) }
    }

    /// Requests shutdown.  Workers observe this on their next poll; the
    /// request is never withdrawn within a run.
    pub fn request_stop(&self) {
        self.running.store(false, Ordering::Relaxed);
    }

    /// Polls the flag.  The result reflects one momentary observation of
    /// shared state, so callers may not assume two polls agree.
    pub fn is_running(&self) -> bool {
        self.running.load(Ordering::Relaxed)
    }
}

} // verus!
