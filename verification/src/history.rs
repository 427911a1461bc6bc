//! What can be done to a queue, one thing after another.

use crate::clock::nanos_between;
use crate::entry::QueueEntry;
use crate::model::QueueModel;
use crate::priority::Priority;
use crate::worker::{Worker, WorkerAction, WorkerEvent};
use std::time::Instant;
use vstd::prelude::*;

verus! {

/// Something done to a queue.
pub enum Op<F, T, C> {
    /// A task is submitted.
    Submit { priority: Priority, task: F, enqueued_at: Instant },
    /// The queue is paused.
    Pause,
    /// The queue is resumed.
    Resume,
    /// A callback is registered.
    OnComplete { callback: C },
    /// A worker comes with an event.
    Work { worker: int, event: WorkerEvent<T> },
    /// The queue is asked to drain.
    Drain,
    /// The queue is shut down.
    Shutdown,
    /// The queue is dropped.
    Abandon,
    /// The outcome of the task with that number is asked for.
    Join { sequence: u64 },
    /// The handle of the task with that number is given up.
    Detach { sequence: u64 },
}

impl<F, T, C> QueueModel<F, T, C> {
    /// Whether the operation can be done to the queue.
    pub open spec fn enables(self, op: Op<F, T, C>) -> bool {
        match op {
            Op::Submit { .. } => self.refusal() is None ==> self.next_sequence < u64::MAX,
            Op::Work { worker, event } => 0 <= worker < self.workers.len()
                && self.workers[worker].expects(event),
            Op::Join { sequence } => self.slots.contains_key(sequence),
            Op::Detach { sequence } => self.slots.contains_key(sequence),
            _ => true,
        }
    }

    /// The queue after the operation.
    pub open spec fn apply(self, op: Op<F, T, C>) -> Self {
        match op {
            Op::Submit { priority, task, enqueued_at } => self.submit(priority, task, enqueued_at),
            Op::Pause => self.set_paused(true),
            Op::Resume => self.set_paused(false),
            Op::OnComplete { callback } => self.set_callback(callback),
            Op::Work { worker, event } => self.step(worker, event),
            Op::Drain => self.drain(),
            Op::Shutdown => self.close(),
            Op::Abandon => self.abandon(),
            Op::Join { sequence } => if self.slots[sequence].value is Some {
                self.release(sequence)
            } else {
                self
            },
            Op::Detach { sequence } => self.release(sequence),
        }
    }

    /// Whether the operations can be done to the queue one after another.
    pub open spec fn enables_all(self, ops: Seq<Op<F, T, C>>) -> bool
        decreases ops.len(),
    {
        ops.len() == 0 || (self.enables(ops[0]) && self.apply(ops[0]).enables_all(
            ops.drop_first(),
        ))
    }

    /// The queue after the operations.
    pub open spec fn apply_all(self, ops: Seq<Op<F, T, C>>) -> Self
        decreases ops.len(),
    {
        if ops.len() == 0 {
            self
        } else {
            self.apply(ops[0]).apply_all(ops.drop_first())
        }
    }

    /// What a worker comes back with from the task with that number in the
    /// operation, if one does: what the task returned, or nothing if it panicked.
    pub open spec fn comes_back(self, op: Op<F, T, C>, sequence: u64) -> Option<Option<T>> {
        match op {
            Op::Work { worker, event: WorkerEvent::Finished { returned, .. } } => if 0 <= worker
                < self.workers.len() && self.workers[worker].task() == Some(sequence) {
                Some(returned)
            } else {
                None
            },
            _ => None,
        }
    }

    /// What a worker comes back with from the task with that number in the course
    /// of the operations, if one does.
    pub open spec fn came_back(self, ops: Seq<Op<F, T, C>>, sequence: u64) -> Option<Option<T>>
        decreases ops.len(),
    {
        if ops.len() == 0 {
            None
        } else if self.comes_back(ops[0], sequence) is Some {
            self.comes_back(ops[0], sequence)
        } else {
            self.apply(ops[0]).came_back(ops.drop_first(), sequence)
        }
    }

    /// Whether a worker is given the task of that entry in the course of the
    /// operations.
    pub open spec fn was_given(self, ops: Seq<Op<F, T, C>>, entry: QueueEntry<F>) -> bool
        decreases ops.len(),
    {
        ops.len() > 0 && ({
            ||| ops[0] matches Op::Work { worker, event: WorkerEvent::Ready } && self.offer() == (
            WorkerAction::<F, T>::Run { task: entry.task, enqueued_at: entry.enqueued_at })
                && self.apply(ops[0]).workers[worker] == (Worker::<T>::Running {
                sequence: entry.sequence,
                enqueued_at: entry.enqueued_at,
            })
            ||| self.apply(ops[0]).was_given(ops.drop_first(), entry)
        })
    }
}

/// The number of operations in which a worker comes back from a task that
/// returned, if `returned`, or from one that panicked, if not.
pub open spec fn tasks_finished<F, T, C>(ops: Seq<Op<F, T, C>>, returned: bool) -> nat
    decreases ops.len(),
{
    if ops.len() == 0 {
        0
    } else {
        tasks_finished(ops.drop_first(), returned) + match ops[0] {
            Op::Work { event: WorkerEvent::Finished { returned: value, .. }, .. } => if (value
                is Some) == returned {
                1nat
            } else {
                0nat
            },
            _ => 0nat,
        }
    }
}

/// The number of operations that are rounds of workers.
pub open spec fn rounds_made<F, T, C>(ops: Seq<Op<F, T, C>>) -> nat
    decreases ops.len(),
{
    if ops.len() == 0 {
        0
    } else {
        rounds_made(ops.drop_first()) + if ops[0] is Work {
            1nat
        } else {
            0nat
        }
    }
}

/// Every operation leads from a sound state, one of which `wf` holds, to a sound
/// state.
pub proof fn law_operations_keep_soundness<F, T, C>(
    queue: QueueModel<F, T, C>,
    op: Op<F, T, C>,
)
    requires
        queue.wf(),
        queue.enables(op),
    ensures
        queue.apply(op).wf(),
{
    match op {
        Op::Submit { priority, task, enqueued_at } => {
            if queue.refusal() is None {
                queue.accept_wf(priority, task, enqueued_at);
            }
        },
        Op::Pause => queue.set_paused_wf(true),
        Op::Resume => queue.set_paused_wf(false),
        Op::OnComplete { callback } => queue.set_callback_wf(callback),
        Op::Work { worker, event } => {
            lemma_worker_steps_keep_soundness(queue, worker, event);
        },
        Op::Drain => {
            queue.begin_drain_wf();
            queue.begin_drain().close_wf();
        },
        Op::Shutdown => queue.close_wf(),
        Op::Abandon => queue.abandon_wf(),
        Op::Join { sequence } => queue.release_wf(sequence),
        Op::Detach { sequence } => queue.release_wf(sequence),
    }
}

/// Every event of a worker leads from a sound state to a sound state.
pub proof fn lemma_worker_steps_keep_soundness<F, T, C>(
    queue: QueueModel<F, T, C>,
    worker: int,
    event: WorkerEvent<T>,
)
    requires
        queue.wf(),
        0 <= worker < queue.workers.len(),
        queue.workers[worker].expects(event),
    ensures
        queue.step(worker, event).wf(),
{
    match event {
        WorkerEvent::Ready => {
            if queue.dispatches() {
                queue.dispatch_wf(worker);
            } else if queue.dismisses() {
                queue.dismiss_wf(worker);
            }
        },
        WorkerEvent::Finished { returned, started_at, finished_at } => {
            queue.finish_wf(
                worker,
                returned,
                nanos_between(queue.workers[worker]->Running_enqueued_at, finished_at),
            );
        },
        WorkerEvent::Reported => queue.deliver_wf(worker),
    }
}

/// Whatever is done to a sound queue, it stays sound.
pub proof fn law_histories_keep_soundness<F, T, C>(
    queue: QueueModel<F, T, C>,
    ops: Seq<Op<F, T, C>>,
)
    requires
        queue.wf(),
        queue.enables_all(ops),
    ensures
        queue.apply_all(ops).wf(),
    decreases ops.len(),
{
    if ops.len() > 0 {
        law_operations_keep_soundness(queue, ops[0]);
        law_histories_keep_soundness(queue.apply(ops[0]), ops.drop_first());
    }
}

/// No operation changes the limit or the number of workers.
pub proof fn lemma_settings_stay<F, T, C>(queue: QueueModel<F, T, C>, ops: Seq<Op<F, T, C>>)
    requires
        queue.enables_all(ops),
    ensures
        queue.apply_all(ops).max_queued == queue.max_queued,
        queue.apply_all(ops).workers.len() == queue.workers.len(),
    decreases ops.len(),
{
    if ops.len() > 0 {
        lemma_settings_stay(queue.apply(ops[0]), ops.drop_first());
    }
}

/// Task numbers are given out in increasing order.
pub proof fn lemma_numbers_only_grow<F, T, C>(queue: QueueModel<F, T, C>, ops: Seq<Op<F, T, C>>)
    ensures
        queue.apply_all(ops).next_sequence >= queue.next_sequence,
    decreases ops.len(),
{
    if ops.len() > 0 {
        lemma_numbers_only_grow(queue.apply(ops[0]), ops.drop_first());
    }
}

/// Whether none of the operations asks for the outcome of the task with that
/// number or gives up its handle.
pub open spec fn leave_handle_alone<F, T, C>(ops: Seq<Op<F, T, C>>, sequence: u64) -> bool {
    forall|i: int|
        0 <= i < ops.len() ==> #[trigger] ops[i] != (Op::<F, T, C>::Join { sequence }) && ops[i]
            != (Op::<F, T, C>::Detach { sequence })
}

/// Whether none of the operations is an event of that worker.
pub open spec fn leave_worker_alone<F, T, C>(ops: Seq<Op<F, T, C>>, worker: int) -> bool {
    forall|i: int|
        0 <= i < ops.len() ==> (#[trigger] ops[i] matches Op::Work { worker: other, .. } ==> other
            != worker)
}

/// What is left alone by operations is left alone by all but the first of them.
pub proof fn lemma_left_alone_by_rest<F, T, C>(ops: Seq<Op<F, T, C>>, sequence: u64, worker: int)
    requires
        ops.len() > 0,
    ensures
        leave_handle_alone(ops, sequence) ==> leave_handle_alone(ops.drop_first(), sequence),
        leave_worker_alone(ops, worker) ==> leave_worker_alone(ops.drop_first(), worker),
{
    let rest = ops.drop_first();
    assert(forall|i: int| 0 <= i < rest.len() ==> rest[i] == ops[i + 1]);
}

} // verus!
