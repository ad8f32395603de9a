//! Counters of what the server has done.

use vstd::prelude::*;

verus! {

/// Running counts, and the second at which counting began.
///
/// The counts are one value with one owner. Where several parts of a program
/// count together, they share the value behind a lock; a copy would count on
/// its own, so the type has none.
#[derive(Debug)]
pub struct Metrics {
    pub tasks_created: u64,
    pub tasks_completed: u64,
    pub tasks_failed: u64,
    pub sync_operations: u64,
    pub uptime_start: u64,
}

/// The counts at one moment.
#[derive(Debug, Clone, Copy, PartialEq, Eq, Structural)]
pub struct MetricsSnapshot {
    pub tasks_created: u64,
    pub tasks_completed: u64,
    pub tasks_failed: u64,
    pub sync_operations: u64,
    pub uptime_seconds: u64,
}

/// A counter after one more event. It wraps to zero past the largest value.
pub open spec fn bumped(count: u64) -> u64 {
    if count == u64::MAX {
        0
    } else {
        (count + 1) as u64
    }
}

fn bump(count: u64) -> (r: u64)
    ensures
        r == bumped(count),
{
    if count == u64::MAX {
        0
    } else {
        count + 1
    }
}

impl Default for Metrics {
    /// All counts zero, counting from second zero.
    fn default() -> (m: Metrics)
        ensures
            m.tasks_created == 0,
            m.tasks_completed == 0,
            m.tasks_failed == 0,
            m.sync_operations == 0,
            m.uptime_start == 0,
    {
        Metrics {
            tasks_created: 0,
            tasks_completed: 0,
            tasks_failed: 0,
            sync_operations: 0,
            uptime_start: 0,
        }
    }
}

impl Metrics {
    /// All counts zero, counting from `now`, a reading of a clock in seconds.
    pub fn started_at(now: u64) -> (m: Metrics)
        ensures
            m.tasks_created == 0,
            m.tasks_completed == 0,
            m.tasks_failed == 0,
            m.sync_operations == 0,
            m.uptime_start == now,
    {
        Metrics {
            tasks_created: 0,
            tasks_completed: 0,
            tasks_failed: 0,
            sync_operations: 0,
            uptime_start: now,
        }
    }

    /// The counts as they stand, with the seconds that have passed between
    /// the start and `now`. A clock reading before the start counts as none.
    pub fn snapshot(&self, now: u64) -> (s: MetricsSnapshot)
        ensures
            s.tasks_created == self.tasks_created,
            s.tasks_completed == self.tasks_completed,
            s.tasks_failed == self.tasks_failed,
            s.sync_operations == self.sync_operations,
            s.uptime_seconds == (if now >= self.uptime_start {
                now - self.uptime_start
            } else {
                0
            }),
    {
        MetricsSnapshot {
            tasks_created: self.tasks_created,
            tasks_completed: self.tasks_completed,
            tasks_failed: self.tasks_failed,
            sync_operations: self.sync_operations,
            uptime_seconds: if now >= self.uptime_start {
                now - self.uptime_start
            } else {
                0
            },
        }
    }

    /// Counts one more created job.
    pub fn increment_tasks_created(&mut self)
        ensures
            *final(self) == (Metrics { tasks_created: bumped(old(self).tasks_created), ..*old(self) }),
    {
        self.tasks_created = bump(self.tasks_created);
    }

    /// Counts one more completed job.
    pub fn increment_tasks_completed(&mut self)
        ensures
            *final(self) == (Metrics {
                tasks_completed: bumped(old(self).tasks_completed),
                ..*old(self)
            }),
    {
        self.tasks_completed = bump(self.tasks_completed);
    }

    /// Counts one more failed job.
    pub fn increment_tasks_failed(&mut self)
        ensures
            *final(self) == (Metrics { tasks_failed: bumped(old(self).tasks_failed), ..*old(self) }),
    {
        self.tasks_failed = bump(self.tasks_failed);
    }

    /// Counts one more synchronisation.
    pub fn increment_sync_operations(&mut self)
        ensures
            *final(self) == (Metrics {
                sync_operations: bumped(old(self).sync_operations),
                ..*old(self)
            }),
    {
        self.sync_operations = bump(self.sync_operations);
    }
}

} // verus!
