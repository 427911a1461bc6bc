//! The task queue.

use crate::clock::nanos_between;
use crate::entry::{PendingTasks, QueueEntry};
use crate::error::TaskError;
use crate::handle::{SlotRef, TaskHandle};
use crate::model::QueueModel;
use crate::preservation::lemma_running_bounds;
use crate::priority::Priority;
use crate::slot::{outcome, TaskResultSlot};
use crate::stats::{StatsCounters, TaskQueueStats};
use crate::worker::{Worker, WorkerAction, WorkerEvent};
use std::collections::HashMap;
use std::time::Instant;
use vstd::prelude::*;

verus! {

broadcast use vstd::std_specs::hash::group_hash_axioms;

/// What decides how tasks come in and go out.
struct SharedState<F> {
    queue: PendingTasks<F>,
    shutdown: bool,
    draining: bool,
    next_sequence: u64,
    max_queued: Option<usize>,
    paused: bool,
}

/// A task queue with a fixed number of workers and priority scheduling.
///
/// `F` is the type of the tasks, `T` that of their results and `C` that of the
/// completion callback.
///
/// The queue does not run anything by itself. The threads that share it, one
/// for each worker, ask it what to do and tell it what came of that, one at a
/// time.
pub struct TaskQueue<F, T, C> {
    shared: SharedState<F>,
    stats: StatsCounters,
    workers: Vec<Worker<T>>,
    slots: HashMap<u64, TaskResultSlot<T>>,
    callback: Option<C>,
}

/// How far a queue that is being drained has got.
pub enum DrainStep {
    /// Tasks are still waiting or being executed: look again after a change.
    Wait,
    /// All have been executed, and the queue is shut down.
    Stop,
}

impl<F, T, C> View for TaskQueue<F, T, C> {
    type V = QueueModel<F, T, C>;

    closed spec fn view(&self) -> QueueModel<F, T, C> {
        QueueModel {
            pending: self.shared.queue@,
            shutdown: self.shared.shutdown,
            draining: self.shared.draining,
            paused: self.shared.paused,
            next_sequence: self.shared.next_sequence as nat,
            max_queued: self.shared.max_queued,
            total_submitted: self.stats.total_submitted as nat,
            completed: self.stats.completed as nat,
            failed: self.stats.failed as nat,
            in_flight: self.stats.in_flight as nat,
            total_nanos: self.stats.latency.total_nanos as nat,
            samples: self.stats.latency.samples as nat,
            workers: self.workers@,
            slots: self.slots@,
            callback: self.callback,
        }
    }
}

/// What submitting a task does: a refused task comes back and leaves the queue
/// as it was; an accepted one goes into it, stamped with a time read from the
/// clock.
pub open spec fn submission<F, T, C>(
    before: QueueModel<F, T, C>,
    priority: Priority,
    task: F,
    submitted: (TaskHandle<T>, Option<F>),
    after: QueueModel<F, T, C>,
) -> bool {
    match before.refusal() {
        Some(error) => {
            &&& submitted.0@ == SlotRef::Own(TaskResultSlot::<T>::settled(Err(error)))
            &&& submitted.1 == Some(task)
            &&& after == before
        },
        None => {
            &&& submitted.0@ == SlotRef::<T>::Shared(before.next_sequence as u64)
            &&& submitted.1 is None
            &&& exists|enqueued_at: Instant|
                after == before.accept(priority, task, enqueued_at) && call_ensures(
                    Instant::now,
                    (),
                    enqueued_at,
                )
        },
    }
}

/// Reads the given clock, and says that the time came from it.
fn read_clock<K: FnOnce() -> Instant>(clock: K) -> (reading: Instant)
    requires
        call_requires(clock, ()),
    ensures
        call_ensures(clock, (), reading),
{
    clock()
}

impl<F, T, C> TaskQueue<F, T, C> {
    /// What holds of every queue.
    pub open spec fn wf(&self) -> bool {
        self@.wf()
    }

    /// Creates a queue with the given number of workers.
    pub fn new(concurrency: usize) -> (queue: Self)
        requires
            concurrency > 0,
        ensures
            queue.wf(),
            queue@ == QueueModel::<F, T, C>::initial(concurrency as nat),
    {
        let mut workers: Vec<Worker<T>> = Vec::with_capacity(concurrency);
        let mut spawned: usize = 0;
        while spawned < concurrency
            invariant
                spawned <= concurrency,
                workers@ == Seq::new(spawned as nat, |worker: int| Worker::<T>::Idle),
            decreases concurrency - spawned,
        {
            workers.push(Worker::Idle);
            spawned += 1;
        }
        let queue = TaskQueue {
            shared: SharedState {
                queue: PendingTasks::new(),
                shutdown: false,
                draining: false,
                next_sequence: 0,
                max_queued: None,
                paused: false,
            },
            stats: StatsCounters::new(),
            workers,
            slots: HashMap::new(),
            callback: None,
        };
        proof {
            QueueModel::<F, T, C>::initial_wf(concurrency as nat);
        }
        queue
    }

    /// Creates a queue with a maximum number of waiting tasks.
    ///
    /// While the queue contains `max_queued` waiting tasks, submissions are
    /// refused and their handles yield `TaskError::QueueFull`.
    pub fn with_capacity(concurrency: usize, max_queued: usize) -> (queue: Self)
        requires
            concurrency > 0,
        ensures
            queue.wf(),
            queue@ == QueueModel::<F, T, C>::initial(concurrency as nat).limited(max_queued),
    {
        let mut queue = Self::new(concurrency);
        proof {
            queue@.limited_wf(max_queued);
        }
        queue.shared.max_queued = Some(max_queued);
        queue
    }

    /// Makes workers leave waiting tasks alone until `resume` is called.
    ///
    /// Tasks can still be submitted. Draining overrides the pause.
    pub fn pause(&mut self)
        requires
            old(self).wf(),
        ensures
            final(self).wf(),
            final(self)@ == old(self)@.set_paused(true),
    {
        proof {
            self@.set_paused_wf(true);
        }
        self.shared.paused = true;
    }

    /// Lets workers take tasks again after a call of `pause`.
    pub fn resume(&mut self)
        requires
            old(self).wf(),
        ensures
            final(self).wf(),
            final(self)@ == old(self)@.set_paused(false),
    {
        proof {
            self@.set_paused_wf(false);
        }
        self.shared.paused = false;
    }

    /// Whether the queue is paused.
    pub fn is_paused(&self) -> (paused: bool)
        ensures
            paused == self@.paused,
    {
        self.shared.paused
    }

    /// The number of tasks waiting in the queue.
    pub fn pending_count(&self) -> (count: usize)
        ensures
            count == self@.pending.len(),
    {
        self.shared.queue.len()
    }

    /// The number of workers.
    pub fn concurrency(&self) -> (count: usize)
        ensures
            count == self@.workers.len(),
    {
        self.workers.len()
    }

    /// Why a task submitted now would be refused, if it would be.
    fn refusal(&self) -> (error: Option<TaskError>)
        ensures
            error == self@.refusal(),
    {
        if self.shared.draining || self.shared.shutdown {
            return Some(TaskError::Cancelled);
        }
        if let Some(max) = self.shared.max_queued {
            if self.shared.queue.len() >= max {
                return Some(TaskError::QueueFull);
            }
        }
        None
    }

    /// Whether the queue would accept a task but has no number left to give it.
    pub fn is_exhausted(&self) -> (exhausted: bool)
        ensures
            exhausted == (self@.refusal() is None && self@.next_sequence == u64::MAX),
    {
        self.refusal().is_none() && self.shared.next_sequence == u64::MAX
    }

    /// Takes in a task submitted at the given time.
    fn enqueue(&mut self, priority: Priority, task: F, enqueued_at: Instant) -> (sequence: u64)
        requires
            old(self).wf(),
            old(self)@.refusal() is None,
            old(self)@.next_sequence < u64::MAX,
        ensures
            final(self).wf(),
            sequence == old(self)@.next_sequence,
            final(self)@ == old(self)@.accept(priority, task, enqueued_at),
    {
        proof {
            self@.accept_wf(priority, task, enqueued_at);
        }
        let sequence = self.shared.next_sequence;
        self.stats.total_submitted += 1;
        self.shared.next_sequence += 1;
        self.slots.insert(sequence, TaskResultSlot::new());
        self.shared.queue.push(QueueEntry { priority, sequence, task, enqueued_at });
        sequence
    }

    /// Whether the task with that number has an outcome.
    pub(crate) fn has_outcome(&self, sequence: u64) -> (set: bool)
        requires
            self@.slots.contains_key(sequence),
        ensures
            set == (self@.slots[sequence].value is Some),
    {
        match self.slots.get(&sequence) {
            Some(slot) => slot.is_set(),
            None => false,
        }
    }

    /// Gives up the slot of a task.
    pub(crate) fn drop_slot(&mut self, sequence: u64) -> (unclaimed: Option<Result<T, TaskError>>)
        requires
            old(self).wf(),
            old(self)@.slots.contains_key(sequence),
        ensures
            final(self).wf(),
            unclaimed == old(self)@.slots[sequence].value,
            final(self)@ == old(self)@.release(sequence),
    {
        proof {
            self@.release_wf(sequence);
        }
        match self.slots.remove(&sequence) {
            Some(slot) => slot.value,
            None => None,
        }
    }

    /// Takes the outcome of a task, if there is one yet, and gives up its slot.
    pub(crate) fn take_outcome(&mut self, sequence: u64) -> (taken: Option<Result<T, TaskError>>)
        requires
            old(self).wf(),
            old(self)@.slots.contains_key(sequence),
        ensures
            final(self).wf(),
            taken == old(self)@.slots[sequence].value,
            final(self)@ == if taken is Some {
                old(self)@.release(sequence)
            } else {
                old(self)@
            },
    {
        if self.has_outcome(sequence) {
            self.drop_slot(sequence)
        } else {
            None
        }
    }

    /// Submits a task with `Normal` priority.
    ///
    /// Does what `submit_with_priority` does.
    pub fn submit(&mut self, task: F) -> (submitted: (TaskHandle<T>, Option<F>))
        requires
            old(self).wf(),
            old(self)@.refusal() is None ==> old(self)@.next_sequence < u64::MAX,
        ensures
            final(self).wf(),
            submission(old(self)@, Priority::Normal, task, submitted, final(self)@),
    {
        self.submit_with_priority(Priority::Normal, task)
    }

    /// Submits a task with the given priority.
    ///
    /// Returns the handle of the task. A refused task comes back beside the
    /// handle, which has its outcome at once: `TaskError::Cancelled` if the
    /// queue is draining or shut down, `TaskError::QueueFull` if it is full.
    pub fn submit_with_priority(&mut self, priority: Priority, task: F) -> (submitted: (
        TaskHandle<T>,
        Option<F>,
    ))
        requires
            old(self).wf(),
            old(self)@.refusal() is None ==> old(self)@.next_sequence < u64::MAX,
        ensures
            final(self).wf(),
            submission(old(self)@, priority, task, submitted, final(self)@),
    {
        match self.refusal() {
            Some(error) => (TaskHandle::refused(error), Some(task)),
            None => {
                let enqueued_at = read_clock(Instant::now);
                let sequence = self.enqueue(priority, task, enqueued_at);
                (TaskHandle::accepted(sequence), None)
            },
        }
    }

    /// A snapshot of the statistics.
    pub fn stats(&self) -> (stats: TaskQueueStats)
        ensures
            stats.total_submitted == self@.total_submitted,
            stats.completed == self@.completed,
            stats.failed == self@.failed,
            stats.in_flight == self@.in_flight,
            stats.total_latency_nanos == self@.total_nanos,
            stats.completed_latency_samples == self@.samples,
    {
        let (total_latency_nanos, completed_latency_samples) = self.stats.snapshot_latency();
        TaskQueueStats {
            total_submitted: self.stats.total_submitted,
            completed: self.stats.completed,
            failed: self.stats.failed,
            in_flight: self.stats.in_flight,
            total_latency_nanos,
            completed_latency_samples,
        }
    }

    /// Registers a callback to be called after each task, in place of the
    /// former one, which comes back.
    pub fn on_complete(&mut self, callback: C) -> (former: Option<C>)
        requires
            old(self).wf(),
        ensures
            final(self).wf(),
            former == old(self)@.callback,
            final(self)@ == old(self)@.set_callback(callback),
    {
        proof {
            self@.set_callback_wf(callback);
        }
        let former = self.callback.take();
        self.callback = Some(callback);
        former
    }

    /// The callback to be called after each task.
    pub fn callback(&self) -> (callback: Option<&C>)
        ensures
            match self@.callback {
                Some(registered) => callback == Some(&registered),
                None => callback is None,
            },
    {
        self.callback.as_ref()
    }

    /// Stops accepting tasks and reports whether all queued and executing tasks
    /// have finished. Once they have, the queue is shut down.
    ///
    /// Unlike `shutdown`, this drops no waiting task. Call it again after each
    /// change until it says `Stop`.
    pub fn drain(&mut self) -> (step: DrainStep)
        requires
            old(self).wf(),
        ensures
            final(self).wf(),
            step is Stop <==> old(self)@.drained(),
            final(self)@ == old(self)@.drain(),
    {
        self.do_drain()
    }

    /// Does what `drain` does.
    pub fn do_drain(&mut self) -> (step: DrainStep)
        requires
            old(self).wf(),
        ensures
            final(self).wf(),
            step is Stop <==> old(self)@.drained(),
            final(self)@ == old(self)@.drain(),
    {
        proof {
            self@.begin_drain_wf();
        }
        self.shared.draining = true;
        if !self.shared.queue.is_empty() || self.stats.in_flight > 0 {
            return DrainStep::Wait;
        }
        let _none = self.do_shutdown();
        DrainStep::Stop
    }

    /// Shuts the queue down.
    ///
    /// Workers stop once they have finished what they are executing. Waiting
    /// tasks are dropped, and come back; their handles yield
    /// `TaskError::Cancelled`.
    pub fn shutdown(&mut self) -> (dropped: Vec<F>)
        requires
            old(self).wf(),
        ensures
            final(self).wf(),
            final(self)@ == old(self)@.close(),
            dropped@ == old(self)@.pending.map_values(|entry: QueueEntry<F>| entry.task),
    {
        self.do_shutdown()
    }

    /// Does what `shutdown` does.
    pub fn do_shutdown(&mut self) -> (dropped: Vec<F>)
        requires
            old(self).wf(),
        ensures
            final(self).wf(),
            final(self)@ == old(self)@.close(),
            dropped@ == old(self)@.pending.map_values(|entry: QueueEntry<F>| entry.task),
    {
        let ghost before = self@;
        self.shared.shutdown = true;
        let dropped = self.cancel_pending();
        proof {
            before.close_wf();
            assert(self@.slots =~= before.slots_after_cancel());
        }
        dropped
    }

    /// Drops the waiting tasks and records that in their slots.
    fn cancel_pending(&mut self) -> (dropped: Vec<F>)
        requires
            old(self)@.tasks_ok(),
            old(self)@.slots_ok(),
        ensures
            final(self)@ == (QueueModel {
                pending: Seq::empty(),
                slots: old(self)@.slots_after_cancel(),
                ..old(self)@
            }),
            dropped@ == old(self)@.pending.map_values(|entry: QueueEntry<F>| entry.task),
    {
        let ghost before = self@;
        let mut dropped: Vec<F> = Vec::new();
        let ghost mut count: int = 0;
        while !self.shared.queue.is_empty()
            invariant
                before.tasks_ok(),
                before.slots_ok(),
                0 <= count <= before.pending.len(),
                self@ == (QueueModel { pending: self@.pending, slots: self@.slots, ..before }),
                self@.pending == before.pending.skip(count),
                self@.slots.dom() == before.slots.dom(),
                forall|s: u64| #[trigger]
                    before.slots.contains_key(s) ==> self@.slots[s] == if exists|i: int|
                        0 <= i < count && (#[trigger] before.pending[i]).sequence == s {
                        TaskResultSlot::settled(Err(TaskError::Cancelled))
                    } else {
                        before.slots[s]
                    },
                dropped@ == before.pending.take(count).map_values(
                    |entry: QueueEntry<F>| entry.task,
                ),
            decreases before.pending.len() - count,
        {
            if let Some(entry) = self.shared.queue.pop() {
                if let Some(mut slot) = self.slots.remove(&entry.sequence) {
                    slot.cancel();
                    self.slots.insert(entry.sequence, slot);
                }
                dropped.push(entry.task);
                proof {
                    assert(before.pending.skip(count)[0] == before.pending[count]);
                    assert(before.is_pending(before.pending[count].sequence));
                    count = count + 1;
                }
            }
        }
        dropped
    }

    /// Shuts the queue down as it is dropped, unless that was done. Waiting
    /// tasks are dropped, and come back, unless they are being drained.
    pub fn abandon(&mut self) -> (dropped: Vec<F>)
        requires
            old(self).wf(),
        ensures
            final(self).wf(),
            final(self)@ == old(self)@.abandon(),
            dropped@ == if old(self)@.shutdown || old(self)@.draining {
                Seq::empty()
            } else {
                old(self)@.pending.map_values(|entry: QueueEntry<F>| entry.task)
            },
    {
        proof {
            self@.abandon_wf();
        }
        if self.shared.shutdown {
            return Vec::new();
        }
        if self.shared.draining {
            self.shared.shutdown = true;
            return Vec::new();
        }
        self.do_shutdown()
    }

    /// Gives a worker a task, or tells it to wait or to leave.
    pub(crate) fn next_task(&mut self, worker: usize) -> (action: WorkerAction<F, T>)
        requires
            old(self).wf(),
            worker < old(self)@.workers.len(),
            old(self)@.workers[worker as int] is Idle,
        ensures
            final(self).wf(),
            action == old(self)@.offer(),
            final(self)@ == old(self)@.step(worker as int, WorkerEvent::Ready),
    {
        let ghost before = self@;
        if !self.shared.paused || self.shared.draining {
            if let Some(entry) = self.shared.queue.pop() {
                proof {
                    before.dispatch_wf(worker as int);
                    lemma_running_bounds(before.dispatch(worker as int).workers);
                }
                self.workers[worker] = Worker::Running {
                    sequence: entry.sequence,
                    enqueued_at: entry.enqueued_at,
                };
                self.stats.in_flight += 1;
                return WorkerAction::Run { task: entry.task, enqueued_at: entry.enqueued_at };
            }
        }
        if self.shared.shutdown || (self.shared.draining && self.shared.queue.is_empty()) {
            proof {
                before.dismiss_wf(worker as int);
            }
            self.workers[worker] = Worker::Stopped;
            return WorkerAction::Exit;
        }
        WorkerAction::Wait
    }

    /// Counts the task that a worker has executed.
    pub(crate) fn finish_task(
        &mut self,
        worker: usize,
        returned: Option<T>,
        started_at: Instant,
        finished_at: Instant,
    ) -> (action: WorkerAction<F, T>)
        requires
            old(self).wf(),
            worker < old(self)@.workers.len(),
            old(self)@.workers[worker as int] is Running,
        ensures
            final(self).wf(),
            old(self)@.answers(
                worker as int,
                WorkerEvent::Finished { returned, started_at, finished_at },
                action,
            ),
            final(self)@ == old(self)@.step(
                worker as int,
                WorkerEvent::Finished { returned, started_at, finished_at },
            ),
    {
        let ghost before = self@;
        let ghost total = nanos_between(
            before.workers[worker as int]->Running_enqueued_at,
            finished_at,
        );
        proof {
            before.finish_wf(worker as int, returned, total);
            lemma_running_bounds(before.workers);
        }
        let success = returned.is_some();
        let mut state = Worker::Idle;
        std::mem::swap(&mut self.workers[worker], &mut state);
        if let Worker::Running { sequence, enqueued_at } = state {
            self.workers[worker] = Worker::Reporting { sequence, value: outcome(returned) };
            let latency = finished_at.saturating_duration_since(enqueued_at);
            self.stats.record_latency(latency);
        }
        self.stats.in_flight -= 1;
        if success {
            self.stats.completed += 1;
        } else {
            self.stats.failed += 1;
        }
        assert(self@ =~= before.finish(worker as int, returned, total));
        let elapsed = finished_at.saturating_duration_since(started_at);
        WorkerAction::Report { success, elapsed }
    }

    /// Hands over the outcome that a worker holds.
    pub(crate) fn deliver(&mut self, worker: usize) -> (action: WorkerAction<F, T>)
        requires
            old(self).wf(),
            worker < old(self)@.workers.len(),
            old(self)@.workers[worker as int] is Reporting,
        ensures
            final(self).wf(),
            old(self)@.answers(worker as int, WorkerEvent::Reported, action),
            final(self)@ == old(self)@.step(worker as int, WorkerEvent::Reported),
    {
        let ghost before = self@;
        proof {
            before.deliver_wf(worker as int);
        }
        let mut unclaimed = None;
        let mut state = Worker::Idle;
        std::mem::swap(&mut self.workers[worker], &mut state);
        if let Worker::Reporting { sequence, value } = state {
            match self.slots.remove(&sequence) {
                Some(mut slot) => {
                    slot.set(value);
                    self.slots.insert(sequence, slot);
                    assert(self@.slots =~= before.deliver(worker as int).slots);
                },
                None => {
                    assert(self@.slots =~= before.slots);
                    unclaimed = Some(value);
                },
            }
        }
        WorkerAction::Continue { unclaimed }
    }
}

} // verus!
