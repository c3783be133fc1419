//! Export progress shared between the export worker and the UI.

use std::sync::atomic::Ordering;
use std::sync::atomic::{AtomicBool, AtomicU64};
use std::sync::Arc;
use vstd::prelude::*;

verus! {

/// A progress cell that several threads may hold and update at once.
///
/// The number of frames done and the cancel flag live in atomics that
/// other threads may change at any moment, so nothing is stated of the
/// values a read of them returns. The frame total is fixed when the cell
/// is made.
#[derive(Debug, Clone)]
pub struct ProgressUpdate {
    inner: Arc<ProgressInner>,
}

#[derive(Debug)]
struct ProgressInner {
    frames_done: AtomicU64,
    frames_total: u64,
    cancelled: AtomicBool,
}

impl ProgressUpdate {
    /// The number of frames the export will write.
    pub closed spec fn frames_total(&self) -> u64 {
        self.inner.frames_total
    }

    /// A fresh cell: nothing done out of `frames_total`, not cancelled.
    pub fn new(frames_total: u64) -> (r: ProgressUpdate)
        ensures
            r.frames_total() == frames_total,
    {
        ProgressUpdate {
            inner: Arc::new(
                ProgressInner {
                    frames_done: AtomicU64::new(0),
                    frames_total,
                    cancelled: AtomicBool::new(false),
                },
            ),
        }
    }

    /// The current (frames done, frames total) pair.
    pub fn counts(&self) -> (r: (u64, u64))
        ensures
            r.1 == self.frames_total(),
    {
        let done = self.inner.frames_done.load(Ordering::Relaxed);
        (done, self.inner.frames_total)
    }

    /// Record that `n` frames are done.
    pub fn set_done(&self, n: u64) {
        self.inner.frames_done.store(n, Ordering::Relaxed);
    }

    /// Record that `by` more frames are done (wrapping on overflow).
    pub fn inc_done(&self, by: u64) {
        let _ = self.inner.frames_done.fetch_add(by, Ordering::Relaxed);
    }

    /// Ask the export to stop.
    pub fn cancel(&self) {
        self.inner.cancelled.store(true, Ordering::Relaxed);
    }

    /// Whether the export was asked to stop.
    pub fn is_cancelled(&self) -> (r: bool) {
        self.inner.cancelled.load(Ordering::Relaxed)
    }
}

} // verus!
