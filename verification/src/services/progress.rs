//! Progress tracking for long-running batch operations.

use vstd::prelude::*;

verus! {

/// State of a tracked operation.
#[derive(Debug, Clone, Copy, PartialEq, Eq, Structural)]
pub enum ProgressStatus {
    Pending,
    Running,
    Completed,
    Failed,
}

/// Progress tracker for long-running operations.
#[derive(Debug, Clone, PartialEq)]
pub struct ProgressTracker {
    pub total: u32,
    pub completed: u32,
    pub failed: u32,
    pub status: ProgressStatus,
}

impl ProgressTracker {
    /// Creates a pending tracker over `total` items.
    pub fn new(total: u32) -> (r: ProgressTracker)
        ensures
            r.total == total,
            r.completed == 0,
            r.failed == 0,
            r.status == ProgressStatus::Pending,
    {
        ProgressTracker { total, completed: 0, failed: 0, status: ProgressStatus::Pending }
    }

    /// Marks the tracker running.
    pub fn start(&mut self)
        ensures
            final(self).status == ProgressStatus::Running,
            final(self).total == old(self).total,
            final(self).completed == old(self).completed,
            final(self).failed == old(self).failed,
    {
        self.status = ProgressStatus::Running;
    }

    /// Counts one item as completed; the tracker is marked completed once
    /// the count reaches the total.
    pub fn increment_completed(&mut self)
        requires
            old(self).completed < u32::MAX,
        ensures
            final(self).completed == old(self).completed + 1,
            final(self).status == if old(self).completed + 1 >= old(self).total {
                ProgressStatus::Completed
            } else {
                old(self).status
            },
            final(self).total == old(self).total,
            final(self).failed == old(self).failed,
    {
        self.completed = self.completed + 1;
        if self.completed >= self.total {
            self.status = ProgressStatus::Completed;
        }
    }

    /// Counts one item as failed.
    pub fn increment_failed(&mut self)
        requires
            old(self).failed < u32::MAX,
        ensures
            final(self).failed == old(self).failed + 1,
            final(self).total == old(self).total,
            final(self).completed == old(self).completed,
            final(self).status == old(self).status,
    {
        self.failed = self.failed + 1;
    }
}

} // verus!
