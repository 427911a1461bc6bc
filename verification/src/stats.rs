//! Counters kept for observability.

use crate::clock::duration_nanos;
use std::time::Duration;
use vstd::prelude::*;

verus! {

/// The smaller of two numbers.
pub open spec fn at_most(value: nat, limit: nat) -> nat {
    if value <= limit {
        value
    } else {
        limit
    }
}

/// Snapshot of task queue statistics for observability.
///
/// Obtained via `TaskQueue::stats`.
#[derive(Debug, Clone, Copy)]
pub struct TaskQueueStats {
    /// Total number of tasks submitted to the queue.
    pub total_submitted: u64,
    /// Number of tasks that completed successfully.
    pub completed: u64,
    /// Number of tasks that failed (panicked).
    pub failed: u64,
    /// Number of tasks currently being executed by workers.
    pub in_flight: u64,
    /// Sum of end-to-end latencies (enqueue to completion) in nanoseconds
    /// for every task that has finished (successfully or with a panic).
    pub total_latency_nanos: u128,
    /// Number of finished tasks that have contributed to `total_latency_nanos`.
    pub completed_latency_samples: u64,
}

impl TaskQueueStats {
    /// Returns the average end-to-end task latency (enqueue to completion),
    /// rounded down to a whole nanosecond and capped at `u64::MAX` nanoseconds.
    ///
    /// Returns `None` when no task has finished yet.
    pub fn average_latency(&self) -> (average: Option<Duration>)
        ensures
            average is None <==> self.completed_latency_samples == 0,
            average matches Some(duration) ==> duration_nanos(duration) == at_most(
                self.total_latency_nanos as nat / self.completed_latency_samples as nat,
                u64::MAX as nat,
            ),
    {
        if self.completed_latency_samples == 0 {
            return None;
        }
        let average_nanos: u128 = self.total_latency_nanos / self.completed_latency_samples as u128;
        let capped: u64 = if average_nanos <= u64::MAX as u128 {
            average_nanos as u64
        } else {
            u64::MAX
        };
        Some(Duration::from_nanos(capped))
    }
}

/// Cumulative latency over all finished tasks.
#[derive(Debug, Clone, Copy)]
pub struct LatencyAccumulator {
    /// Sum of the latencies in nanoseconds, held at `u128::MAX` once it gets there.
    pub total_nanos: u128,
    /// Number of latencies summed up, held at `u64::MAX` once it gets there.
    pub samples: u64,
}

/// The counters that a queue keeps about its tasks.
#[derive(Debug, Clone, Copy)]
pub struct StatsCounters {
    /// Tasks accepted so far.
    pub total_submitted: u64,
    /// Tasks that returned.
    pub completed: u64,
    /// Tasks that panicked.
    pub failed: u64,
    /// Tasks that a worker is executing.
    pub in_flight: u64,
    /// Time from submission to completion over all finished tasks.
    pub latency: LatencyAccumulator,
}

impl StatsCounters {
    /// All counters at zero.
    pub fn new() -> (counters: Self)
        ensures
            counters == (StatsCounters {
                total_submitted: 0,
                completed: 0,
                failed: 0,
                in_flight: 0,
                latency: LatencyAccumulator { total_nanos: 0, samples: 0 },
            }),
    {
        StatsCounters {
            total_submitted: 0,
            completed: 0,
            failed: 0,
            in_flight: 0,
            latency: LatencyAccumulator { total_nanos: 0, samples: 0 },
        }
    }

    /// Adds the latency of one finished task. Both sums saturate.
    pub fn record_latency(&mut self, elapsed: Duration)
        ensures
            final(self).latency.total_nanos == at_most(
                (old(self).latency.total_nanos + duration_nanos(elapsed)) as nat,
                u128::MAX as nat,
            ),
            final(self).latency.samples == at_most(
                (old(self).latency.samples + 1) as nat,
                u64::MAX as nat,
            ),
            *final(self) == (StatsCounters { latency: final(self).latency, ..*old(self) }),
    {
        self.latency.total_nanos = self.latency.total_nanos.saturating_add(elapsed.as_nanos());
        self.latency.samples = self.latency.samples.saturating_add(1);
    }

    /// The latency sum in nanoseconds and the number of latencies in it.
    pub fn snapshot_latency(&self) -> (latency: (u128, u64))
        ensures
            latency == (self.latency.total_nanos, self.latency.samples),
    {
        (self.latency.total_nanos, self.latency.samples)
    }
}

} // verus!
