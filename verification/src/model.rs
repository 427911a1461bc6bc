//! The queue as a mathematical object: its state, what every state satisfies,
//! and what each operation makes of it.

use crate::clock::{duration_nanos, nanos_between};
use crate::entry::{in_order, place, QueueEntry};
use crate::error::TaskError;
use crate::priority::Priority;
use crate::slot::{outcome_of, TaskResultSlot};
use crate::stats::at_most;
use crate::worker::{Worker, WorkerAction, WorkerEvent};
use std::time::Instant;
use vstd::prelude::*;

verus! {

/// The state of a queue.
#[verifier::ext_equal]
pub struct QueueModel<F, T, C> {
    /// The tasks waiting to run, the next one to run first.
    pub pending: Seq<QueueEntry<F>>,
    /// Whether the queue was shut down.
    pub shutdown: bool,
    /// Whether the queue is finishing what it has and takes nothing new.
    pub draining: bool,
    /// Whether workers are to leave waiting tasks alone.
    pub paused: bool,
    /// The sequence number of the next accepted task.
    pub next_sequence: nat,
    /// The largest number of waiting tasks, if there is a limit.
    pub max_queued: Option<usize>,
    /// Tasks accepted so far.
    pub total_submitted: nat,
    /// Tasks that returned.
    pub completed: nat,
    /// Tasks that panicked.
    pub failed: nat,
    /// Tasks that a worker is executing.
    pub in_flight: nat,
    /// Sum of the latencies of finished tasks in nanoseconds.
    pub total_nanos: nat,
    /// Number of latencies in that sum.
    pub samples: nat,
    /// What each worker is doing.
    pub workers: Seq<Worker<T>>,
    /// The outcome of each accepted task whose handle is still held, by
    /// sequence number.
    pub slots: Map<u64, TaskResultSlot<T>>,
    /// What to call when a task has finished.
    pub callback: Option<C>,
}

/// The number of workers that are executing a task.
pub open spec fn running<T>(workers: Seq<Worker<T>>) -> nat
    decreases workers.len(),
{
    if workers.len() == 0 {
        0
    } else {
        running(workers.drop_last()) + if workers.last() is Running {
            1nat
        } else {
            0nat
        }
    }
}

impl<F, T, C> QueueModel<F, T, C> {
    /// A queue with the given number of idle workers and nothing else.
    pub open spec fn initial(concurrency: nat) -> Self {
        QueueModel {
            pending: Seq::empty(),
            shutdown: false,
            draining: false,
            paused: false,
            next_sequence: 0,
            max_queued: None,
            total_submitted: 0,
            completed: 0,
            failed: 0,
            in_flight: 0,
            total_nanos: 0,
            samples: 0,
            workers: Seq::new(concurrency, |worker: int| Worker::Idle),
            slots: Map::empty(),
            callback: None,
        }
    }

    /// The same queue with a limit on the number of waiting tasks.
    pub open spec fn limited(self, max_queued: usize) -> Self {
        QueueModel { max_queued: Some(max_queued), ..self }
    }

    /// Whether the task with that number is waiting to run.
    pub open spec fn is_pending(self, sequence: u64) -> bool {
        exists|i: int|
            0 <= i < self.pending.len() && (#[trigger] self.pending[i]).sequence == sequence
    }

    /// Whether a worker has taken the task with that number and has not yet
    /// handed over its outcome.
    pub open spec fn is_held(self, sequence: u64) -> bool {
        exists|w: int|
            0 <= w < self.workers.len() && (#[trigger] self.workers[w]).task() == Some(sequence)
    }

    /// The number of accepted tasks that were dropped without running.
    pub open spec fn cancelled(self) -> int {
        self.total_submitted - self.completed - self.failed - self.in_flight - self.pending.len()
    }

    /// Why a task submitted now would be refused, if it would be.
    pub open spec fn refusal(self) -> Option<TaskError> {
        if self.draining || self.shutdown {
            Some(TaskError::Cancelled)
        } else if self.max_queued matches Some(limit) && self.pending.len() >= limit {
            Some(TaskError::QueueFull)
        } else {
            None
        }
    }

    /// Whether a worker that asks for a task now gets one.
    pub open spec fn dispatches(self) -> bool {
        (!self.paused || self.draining) && self.pending.len() > 0
    }

    /// Whether a worker that asks for a task now is told to stop.
    pub open spec fn dismisses(self) -> bool {
        !self.dispatches() && (self.shutdown || (self.draining && self.pending.len() == 0))
    }

    /// Whether all waiting tasks have been taken and none is being executed.
    pub open spec fn drained(self) -> bool {
        self.pending.len() == 0 && self.in_flight == 0
    }

    /// The entry of a task submitted now.
    pub open spec fn entry(self, priority: Priority, task: F, enqueued_at: Instant) -> QueueEntry<
        F,
    > {
        QueueEntry { priority, sequence: self.next_sequence as u64, task, enqueued_at }
    }

    /// Takes in a task.
    pub open spec fn accept(self, priority: Priority, task: F, enqueued_at: Instant) -> Self {
        let entry = self.entry(priority, task, enqueued_at);
        QueueModel {
            pending: self.pending.insert(place(self.pending, entry) as int, entry),
            next_sequence: self.next_sequence + 1,
            total_submitted: self.total_submitted + 1,
            slots: self.slots.insert(entry.sequence, TaskResultSlot::open_slot()),
            ..self
        }
    }

    /// What submitting a task does: nothing if the task is refused.
    pub open spec fn submit(self, priority: Priority, task: F, enqueued_at: Instant) -> Self {
        if self.refusal() is Some {
            self
        } else {
            self.accept(priority, task, enqueued_at)
        }
    }

    /// Pauses the queue or lets it go on.
    pub open spec fn set_paused(self, paused: bool) -> Self {
        QueueModel { paused, ..self }
    }

    /// Puts a callback in place of the former one.
    pub open spec fn set_callback(self, callback: C) -> Self {
        QueueModel { callback: Some(callback), ..self }
    }

    /// Gives the task due first to a worker.
    pub open spec fn dispatch(self, worker: int) -> Self {
        QueueModel {
            pending: self.pending.drop_first(),
            in_flight: self.in_flight + 1,
            workers: self.workers.update(
                worker,
                Worker::Running {
                    sequence: self.pending[0].sequence,
                    enqueued_at: self.pending[0].enqueued_at,
                },
            ),
            ..self
        }
    }

    /// Sends a worker home.
    pub open spec fn dismiss(self, worker: int) -> Self {
        QueueModel { workers: self.workers.update(worker, Worker::Stopped), ..self }
    }

    /// Counts a task that a worker has executed.
    pub open spec fn finish(self, worker: int, returned: Option<T>, latency: nat) -> Self {
        QueueModel {
            in_flight: (self.in_flight - 1) as nat,
            completed: if returned is Some {
                self.completed + 1
            } else {
                self.completed
            },
            failed: if returned is Some {
                self.failed
            } else {
                self.failed + 1
            },
            total_nanos: at_most(self.total_nanos + latency, u128::MAX as nat),
            samples: self.samples + 1,
            workers: self.workers.update(
                worker,
                Worker::Reporting {
                    sequence: self.workers[worker]->Running_sequence,
                    value: outcome_of(returned),
                },
            ),
            ..self
        }
    }

    /// Hands over the outcome that a worker holds, and frees the worker.
    pub open spec fn deliver(self, worker: int) -> Self {
        let sequence = self.workers[worker]->Reporting_sequence;
        let value = self.workers[worker]->Reporting_value;
        QueueModel {
            workers: self.workers.update(worker, Worker::Idle),
            slots: if self.slots.contains_key(sequence) {
                self.slots.insert(sequence, TaskResultSlot::settled(value))
            } else {
                self.slots
            },
            ..self
        }
    }

    /// What a worker that asks for a task is told to do.
    pub open spec fn offer(self) -> WorkerAction<F, T> {
        if self.dispatches() {
            WorkerAction::Run {
                task: self.pending[0].task,
                enqueued_at: self.pending[0].enqueued_at,
            }
        } else if self.dismisses() {
            WorkerAction::Exit
        } else {
            WorkerAction::Wait
        }
    }

    /// Whether the action is what a worker that comes with an event is told to
    /// do. Of a finished task it reports the time of execution alone.
    pub open spec fn answers(
        self,
        worker: int,
        event: WorkerEvent<T>,
        action: WorkerAction<F, T>,
    ) -> bool {
        match event {
            WorkerEvent::Ready => action == self.offer(),
            WorkerEvent::Finished { returned, started_at, finished_at } => {
                &&& action matches WorkerAction::Report { success, elapsed }
                &&& success == (returned is Some)
                &&& duration_nanos(elapsed) == nanos_between(started_at, finished_at)
            },
            WorkerEvent::Reported => action == (WorkerAction::<F, T>::Continue {
                unclaimed: if self.slots.contains_key(self.workers[worker]->Reporting_sequence) {
                    None
                } else {
                    Some(self.workers[worker]->Reporting_value)
                },
            }),
        }
    }

    /// What becomes of the queue when a worker comes with an event.
    pub open spec fn step(self, worker: int, event: WorkerEvent<T>) -> Self {
        match event {
            WorkerEvent::Ready => if self.dispatches() {
                self.dispatch(worker)
            } else if self.dismisses() {
                self.dismiss(worker)
            } else {
                self
            },
            WorkerEvent::Finished { returned, started_at, finished_at } => self.finish(
                worker,
                returned,
                nanos_between(self.workers[worker]->Running_enqueued_at, finished_at),
            ),
            WorkerEvent::Reported => self.deliver(worker),
        }
    }

    /// Stops taking in tasks, and lets the waiting ones run.
    pub open spec fn begin_drain(self) -> Self {
        QueueModel { draining: true, ..self }
    }

    /// The outcomes once the waiting tasks are dropped.
    pub open spec fn slots_after_cancel(self) -> Map<u64, TaskResultSlot<T>> {
        Map::new(
            |sequence: u64| self.slots.contains_key(sequence),
            |sequence: u64|
                if self.is_pending(sequence) {
                    TaskResultSlot::settled(Err(TaskError::Cancelled))
                } else {
                    self.slots[sequence]
                },
        )
    }

    /// Stops taking in tasks, and drops the waiting ones.
    pub open spec fn close(self) -> Self {
        QueueModel {
            shutdown: true,
            pending: Seq::empty(),
            slots: self.slots_after_cancel(),
            ..self
        }
    }

    /// What asking a queue to drain does: it shuts down as soon as nothing is
    /// left to do.
    pub open spec fn drain(self) -> Self {
        if self.drained() {
            self.begin_drain().close()
        } else {
            self.begin_drain()
        }
    }

    /// What remains when the queue itself is dropped: shut down, with the
    /// waiting tasks dropped unless they were being drained.
    pub open spec fn abandon(self) -> Self {
        if self.shutdown {
            self
        } else if self.draining {
            QueueModel { shutdown: true, ..self }
        } else {
            self.close()
        }
    }

    /// Gives up the slot of a task, whose handle is no longer held.
    pub open spec fn release(self, sequence: u64) -> Self {
        QueueModel { slots: self.slots.remove(sequence), ..self }
    }

    /// Waiting tasks stand in the order in which they will run, and are no more
    /// than the queue may hold.
    pub open spec fn pending_ok(self) -> bool {
        &&& in_order(self.pending)
        &&& self.max_queued matches Some(limit) ==> self.pending.len() <= limit
    }

    /// Each task number belongs to one task, and that task is in one place:
    /// waiting, or with one worker.
    pub open spec fn tasks_ok(self) -> bool {
        &&& forall|i: int|
            0 <= i < self.pending.len() ==> (#[trigger] self.pending[i]).sequence
                < self.next_sequence
        &&& forall|i: int, j: int|
            #![trigger self.pending[i], self.pending[j]]
            0 <= i < j < self.pending.len() ==> self.pending[i].sequence
                != self.pending[j].sequence
        &&& forall|w: int|
            0 <= w < self.workers.len() && (#[trigger] self.workers[w]).task() is Some ==> {
                &&& self.workers[w].task()->0 < self.next_sequence
                &&& !self.is_pending(self.workers[w].task()->0)
            }
        &&& forall|v: int, w: int|
            #![trigger self.workers[v], self.workers[w]]
            0 <= v < w < self.workers.len() && self.workers[v].task() is Some
                ==> self.workers[v].task() != self.workers[w].task()
    }

    /// A task has no outcome exactly as long as it waits or a worker has it.
    pub open spec fn slots_ok(self) -> bool {
        forall|sequence: u64| #[trigger]
            self.slots.contains_key(sequence) ==> {
                &&& sequence < self.next_sequence
                &&& self.slots[sequence].value is None <==> self.is_pending(sequence)
                    || self.is_held(sequence)
                &&& self.slots[sequence].value != Some(Err::<T, TaskError>(TaskError::QueueFull))
            }
    }

    /// The counters agree with the tasks.
    pub open spec fn counts_ok(self) -> bool {
        &&& self.workers.len() > 0
        &&& self.next_sequence <= u64::MAX
        &&& self.total_submitted == self.next_sequence
        &&& self.in_flight == running(self.workers)
        &&& self.samples == self.completed + self.failed
        &&& self.total_nanos <= u128::MAX
        &&& self.cancelled() >= 0
    }

    /// An outcome that a worker holds is that of a task that ran.
    pub open spec fn workers_ok(self) -> bool {
        forall|w: int|
            0 <= w < self.workers.len() && (#[trigger] self.workers[w]) is Reporting ==> {
                self.workers[w]->Reporting_value matches Err(error) ==> error
                    == TaskError::Panicked
            }
    }

    /// Tasks are dropped only by shutting down, and nothing is left waiting
    /// once a worker has stopped.
    pub open spec fn closing_ok(self) -> bool {
        &&& !self.shutdown ==> self.cancelled() == 0
        &&& self.shutdown && !self.draining ==> self.pending.len() == 0
        &&& (exists|w: int| 0 <= w < self.workers.len() && (#[trigger] self.workers[w]) is Stopped)
            ==> self.pending.len() == 0 && (self.shutdown || self.draining)
        &&& self.cancelled() == 0 ==> forall|sequence: u64| #[trigger]
            self.slots.contains_key(sequence) ==> self.slots[sequence].value != Some(
                Err::<T, TaskError>(TaskError::Cancelled),
            )
    }

    /// What holds of every state of a queue.
    pub open spec fn wf(self) -> bool {
        &&& self.pending_ok()
        &&& self.tasks_ok()
        &&& self.slots_ok()
        &&& self.counts_ok()
        &&& self.workers_ok()
        &&& self.closing_ok()
    }
}

} // verus!
