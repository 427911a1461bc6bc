//! What the workers of a queue do.

use crate::error::TaskError;
use crate::queue::TaskQueue;
use std::time::{Duration, Instant};
use vstd::prelude::*;

verus! {

/// What a worker is doing.
pub enum Worker<T> {
    /// It has no task.
    Idle,
    /// It is executing a task.
    Running {
        /// The number of the task.
        sequence: u64,
        /// When the task was submitted.
        enqueued_at: Instant,
    },
    /// It has executed a task and is reporting that before the outcome is
    /// handed over.
    Reporting {
        /// The number of the task.
        sequence: u64,
        /// The outcome of the task.
        value: Result<T, TaskError>,
    },
    /// It has left for good.
    Stopped,
}

impl<T> Worker<T> {
    /// The number of the task that the worker has.
    pub open spec fn task(self) -> Option<u64> {
        match self {
            Worker::Running { sequence, enqueued_at } => Some(sequence),
            Worker::Reporting { sequence, value } => Some(sequence),
            _ => None,
        }
    }

    /// Whether the worker can come with that event.
    pub open spec fn expects(self, event: WorkerEvent<T>) -> bool {
        match event {
            WorkerEvent::Ready => self is Idle,
            WorkerEvent::Finished { .. } => self is Running,
            WorkerEvent::Reported => self is Reporting,
        }
    }
}

/// What a worker tells the queue.
pub enum WorkerEvent<T> {
    /// It has nothing to do.
    Ready,
    /// It has executed its task.
    Finished {
        /// What the task returned, or `None` if it panicked.
        returned: Option<T>,
        /// When the worker began to execute the task.
        started_at: Instant,
        /// When the task returned or panicked.
        finished_at: Instant,
    },
    /// It has called the completion callback, if there is one.
    Reported,
}

/// What the queue tells a worker to do.
pub enum WorkerAction<F, T> {
    /// Execute the task, and come back with `Finished`.
    Run {
        /// The task.
        task: F,
        /// When the task was submitted.
        enqueued_at: Instant,
    },
    /// Wait for a change, and come back with `Ready`.
    Wait,
    /// Leave for good.
    Exit,
    /// Call the completion callback, if there is one, with these arguments, and
    /// come back with `Reported`.
    Report {
        /// Whether the task returned.
        success: bool,
        /// How long the task took to execute, the waiting not counted.
        elapsed: Duration,
    },
    /// Make the change known to all who wait, and come back with `Ready`.
    Continue {
        /// The outcome of the task, if nobody holds the handle any more.
        unclaimed: Option<Result<T, TaskError>>,
    },
}

/// One round of a worker: takes what the worker has to tell, and returns what
/// it has to do next.
///
/// A worker starts with `Ready`, does what it is told, and comes back with what
/// the action asks for, until it is told to leave. A task is counted, and the
/// callback called, before the outcome of the task is handed over.
pub fn worker_loop<F, T, C>(
    queue: &mut TaskQueue<F, T, C>,
    worker: usize,
    event: WorkerEvent<T>,
) -> (action: WorkerAction<F, T>)
    requires
        old(queue).wf(),
        worker < old(queue)@.workers.len(),
        old(queue)@.workers[worker as int].expects(event),
    ensures
        final(queue).wf(),
        old(queue)@.answers(worker as int, event, action),
        final(queue)@ == old(queue)@.step(worker as int, event),
{
    match event {
        WorkerEvent::Ready => queue.next_task(worker),
        WorkerEvent::Finished { returned, started_at, finished_at } => queue.finish_task(
            worker,
            returned,
            started_at,
            finished_at,
        ),
        WorkerEvent::Reported => queue.deliver(worker),
    }
}

} // verus!
