//! Which tasks run when.

use crate::entry::{lemma_place_splits, place, QueueEntry};
use crate::handle::{SlotRef, TaskHandle};
use crate::history::{
    law_histories_keep_soundness, law_operations_keep_soundness, lemma_numbers_only_grow,
    lemma_settings_stay, tasks_finished, Op,
};
use crate::laws::effects::more_urgent;
use crate::model::QueueModel;
use crate::preservation::lemma_running_bounds;
use crate::priority::Priority;
use crate::queue::submission;
use crate::worker::{WorkerAction, WorkerEvent};
use std::time::Instant;
use vstd::prelude::*;

verus! {

/// Of two waiting entries one is due before the other unless they are equal,
/// and being due before carries over from one to the next.
pub proof fn law_entry_order_is_total<F>(a: QueueEntry<F>, b: QueueEntry<F>, c: QueueEntry<F>)
    ensures
        a.runs_before(b) || b.runs_before(a) || (a.priority == b.priority && a.sequence
            == b.sequence),
        a.runs_before(b) ==> !b.runs_before(a) && !(a.priority == b.priority && a.sequence
            == b.sequence),
        a.runs_before(b) && b.runs_before(c) ==> a.runs_before(c),
{
}

/// A worker gets the most urgent of the waiting tasks, and among equally urgent
/// ones the one that was submitted first.
pub proof fn law_most_urgent_first<F, T, C>(queue: QueueModel<F, T, C>, other: int)
    requires
        queue.wf(),
        queue.dispatches(),
        0 <= other < queue.pending.len(),
    ensures
        queue.offer() == (WorkerAction::<F, T>::Run {
            task: queue.pending[0].task,
            enqueued_at: queue.pending[0].enqueued_at,
        }),
        queue.pending[0].priority.rank() >= queue.pending[other].priority.rank(),
        queue.pending[0].priority == queue.pending[other].priority ==> queue.pending[0].sequence
            <= queue.pending[other].sequence,
{
    if other > 0 {
        assert(queue.pending[0].runs_before(queue.pending[other]));
    }
}

/// An accepted task comes after the waiting tasks that are at least as urgent,
/// and before those that are less urgent. These keep their order.
pub proof fn law_accepted_task_waits_its_turn<F, T, C>(
    queue: QueueModel<F, T, C>,
    priority: Priority,
    task: F,
    enqueued_at: Instant,
)
    requires
        queue.wf(),
        queue.refusal() is None,
        queue.next_sequence < u64::MAX,
    ensures
        ({
            let entry = queue.entry(priority, task, enqueued_at);
            let at = place(queue.pending, entry) as int;
            let after = queue.accept(priority, task, enqueued_at).pending;
            &&& 0 <= at <= queue.pending.len()
            &&& after.len() == queue.pending.len() + 1
            &&& after[at] == entry
            &&& forall|i: int|
                0 <= i < at ==> #[trigger] after[i] == queue.pending[i]
                    && after[i].priority.rank() >= priority.rank()
            &&& forall|i: int|
                at < i < after.len() ==> #[trigger] after[i] == queue.pending[i - 1]
                    && after[i].priority.rank() < priority.rank()
        }),
{
    let entry = queue.entry(priority, task, enqueued_at);
    lemma_place_splits(queue.pending, entry);
    let at = place(queue.pending, entry) as int;
    let after = queue.accept(priority, task, enqueued_at).pending;
    assert forall|i: int| at < i < after.len() implies #[trigger] after[i] == queue.pending[i - 1]
        && after[i].priority.rank() < priority.rank() by {
        assert(!queue.pending[i - 1].runs_before(entry));
        assert(queue.pending[i - 1].sequence < queue.next_sequence);
    }
}

/// A task that is waiting was waiting before, with the same entry, if its number
/// was given out before. So what a worker has taken or shutting down has
/// dropped never waits again.
pub proof fn law_waiting_tasks_stay_themselves<F, T, C>(
    queue: QueueModel<F, T, C>,
    ops: Seq<Op<F, T, C>>,
    i: int,
)
    requires
        queue.wf(),
        queue.enables_all(ops),
        0 <= i < queue.apply_all(ops).pending.len(),
        queue.apply_all(ops).pending[i].sequence < queue.next_sequence,
    ensures
        queue.pending.contains(queue.apply_all(ops).pending[i]),
    decreases ops.len(),
{
    if ops.len() > 0 {
        let next = queue.apply(ops[0]);
        let entry = queue.apply_all(ops).pending[i];
        law_operations_keep_soundness(queue, ops[0]);
        law_waiting_tasks_stay_themselves(next, ops.drop_first(), i);
        let j = choose|j: int| 0 <= j < next.pending.len() && next.pending[j] == entry;
        match ops[0] {
            Op::Submit { priority, task, enqueued_at } => {
                if queue.refusal() is None {
                    let new = queue.entry(priority, task, enqueued_at);
                    lemma_place_splits(queue.pending, new);
                    let at = place(queue.pending, new) as int;
                    assert(j != at);
                    assert(entry == queue.pending[if j < at {
                        j
                    } else {
                        j - 1
                    }]);
                }
            },
            Op::Work { worker, event } => {
                assert(next.pending == queue.pending || next.pending
                    == queue.pending.drop_first());
            },
            _ => {},
        }
    }
}

/// A task runs at most once: what does not wait any more never waits again.
pub proof fn law_tasks_run_at_most_once<F, T, C>(
    queue: QueueModel<F, T, C>,
    ops: Seq<Op<F, T, C>>,
    sequence: u64,
)
    requires
        queue.wf(),
        queue.enables_all(ops),
        sequence < queue.next_sequence,
        !queue.is_pending(sequence),
    ensures
        !queue.apply_all(ops).is_pending(sequence),
{
    let later = queue.apply_all(ops);
    if later.is_pending(sequence) {
        let i = choose|i: int|
            0 <= i < later.pending.len() && (#[trigger] later.pending[i]).sequence == sequence;
        law_waiting_tasks_stay_themselves(queue, ops, i);
    }
}

/// The number of workers never changes, and at no time are more tasks executed
/// than there are workers.
pub proof fn law_concurrency_is_bounded<F, T, C>(
    queue: QueueModel<F, T, C>,
    ops: Seq<Op<F, T, C>>,
)
    requires
        queue.wf(),
        queue.enables_all(ops),
    ensures
        queue.apply_all(ops).workers.len() == queue.workers.len(),
        queue.apply_all(ops).in_flight <= queue.workers.len(),
{
    law_histories_keep_soundness(queue, ops);
    lemma_settings_stay(queue, ops);
    lemma_running_bounds(queue.apply_all(ops).workers);
}

/// A queue that was paused and is not draining stays so until it is resumed or
/// asked to drain, whatever else is done to it. All that time no worker gets a
/// task, and no more tasks are executed than were when it began.
pub proof fn law_paused_queue_dispatches_nothing<F, T, C>(
    queue: QueueModel<F, T, C>,
    ops: Seq<Op<F, T, C>>,
    worker: int,
    event: WorkerEvent<T>,
    action: WorkerAction<F, T>,
)
    requires
        queue.wf(),
        queue.paused,
        !queue.draining,
        queue.enables_all(ops),
        forall|i: int| 0 <= i < ops.len() ==> !(#[trigger] ops[i] is Resume || ops[i] is Drain),
    ensures
        queue.apply_all(ops).paused,
        !queue.apply_all(ops).draining,
        queue.apply_all(ops).in_flight <= queue.in_flight,
        queue.apply_all(ops).answers(worker, event, action) ==> !(action is Run),
        queue.apply_all(ops).step(worker, event).pending == queue.apply_all(ops).pending,
    decreases ops.len(),
{
    if ops.len() > 0 {
        let rest = ops.drop_first();
        law_operations_keep_soundness(queue, ops[0]);
        lemma_running_bounds(queue.workers);
        assert forall|i: int| 0 <= i < rest.len() implies !(#[trigger] rest[i] is Resume || rest[i]
            is Drain) by {
            assert(rest[i] == ops[i + 1]);
        }
        law_paused_queue_dispatches_nothing(queue.apply(ops[0]), rest, worker, event, action);
    }
}

/// Pausing and resuming a queue that is not paused leaves it as it was.
pub proof fn law_resume_undoes_pause<F, T, C>(queue: QueueModel<F, T, C>)
    requires
        !queue.paused,
    ensures
        queue.set_paused(true).set_paused(false) == queue,
{
}

/// A draining queue gives its waiting tasks out, paused or not, and never makes
/// a worker wait.
pub proof fn law_draining_overrides_pause<F, T, C>(queue: QueueModel<F, T, C>)
    requires
        queue.draining,
    ensures
        queue.pending.len() > 0 ==> queue.offer() is Run,
        queue.pending.len() == 0 ==> queue.offer() is Exit,
{
}

/// A task leaves the waiting ones only by being given to a worker, unless the
/// queue is shut down, or is dropped while it is not draining.
pub proof fn law_waiting_tasks_leave_only_to_workers<F, T, C>(
    queue: QueueModel<F, T, C>,
    ops: Seq<Op<F, T, C>>,
    entry: QueueEntry<F>,
)
    requires
        queue.wf(),
        queue.enables_all(ops),
        queue.pending.contains(entry),
        forall|i: int| 0 <= i < ops.len() ==> !(#[trigger] ops[i] is Shutdown),
        queue.draining || forall|i: int| 0 <= i < ops.len() ==> !(#[trigger] ops[i] is Abandon),
    ensures
        queue.apply_all(ops).pending.contains(entry) || queue.was_given(ops, entry),
    decreases ops.len(),
{
    if ops.len() > 0 {
        let op = ops[0];
        let rest = ops.drop_first();
        let next = queue.apply(op);
        let i = choose|i: int| 0 <= i < queue.pending.len() && queue.pending[i] == entry;
        law_operations_keep_soundness(queue, op);
        assert(forall|k: int| 0 <= k < rest.len() ==> rest[k] == ops[k + 1]);
        if let Op::Submit { priority, task, enqueued_at } = op {
            if queue.refusal() is None {
                let new = queue.entry(priority, task, enqueued_at);
                let at = place(queue.pending, new) as int;
                lemma_place_splits(queue.pending, new);
                assert(next.pending[if i < at {
                    i
                } else {
                    i + 1
                }] == entry);
            }
        }
        if op is Work && op->event is Ready && queue.dispatches() {
            if i > 0 {
                assert(next.pending[i - 1] == entry);
                law_waiting_tasks_leave_only_to_workers(next, rest, entry);
            }
        } else {
            assert(next.pending.contains(entry));
            law_waiting_tasks_leave_only_to_workers(next, rest, entry);
        }
    }
}

/// The number of tasks that waited or were in flight and of those finished since
/// stay in balance while a queue drains.
proof fn lemma_drain_balance<F, T, C>(queue: QueueModel<F, T, C>, ops: Seq<Op<F, T, C>>)
    requires
        queue.wf(),
        queue.draining,
        queue.enables_all(ops),
        forall|i: int| 0 <= i < ops.len() ==> !(#[trigger] ops[i] is Shutdown),
    ensures
        queue.apply_all(ops).pending.len() + queue.apply_all(ops).in_flight + tasks_finished(
            ops,
            true,
        ) + tasks_finished(ops, false) == queue.pending.len() + queue.in_flight,
    decreases ops.len(),
{
    if ops.len() > 0 {
        let rest = ops.drop_first();
        law_operations_keep_soundness(queue, ops[0]);
        lemma_running_bounds(queue.workers);
        assert(forall|k: int| 0 <= k < rest.len() ==> rest[k] == ops[k + 1]);
        lemma_drain_balance(queue.apply(ops[0]), rest);
    }
}

/// Draining a queue runs all its tasks: whatever else is done short of shutting it
/// down, by the time when nothing waits every task that waited at the beginning
/// was given to a worker, and by the time when nothing is in flight either,
/// workers have come back from exactly as many tasks as waited or were in flight
/// at the beginning.
pub proof fn law_draining_gives_every_task_out<F, T, C>(
    queue: QueueModel<F, T, C>,
    ops: Seq<Op<F, T, C>>,
    i: int,
)
    requires
        queue.wf(),
        queue.drain().enables_all(ops),
        forall|k: int| 0 <= k < ops.len() ==> !(#[trigger] ops[k] is Shutdown),
        queue.drain().apply_all(ops).pending.len() == 0,
    ensures
        0 <= i < queue.pending.len() ==> queue.drain().was_given(ops, queue.pending[i]),
        queue.drain().apply_all(ops).in_flight == 0 ==> tasks_finished(ops, true) + tasks_finished(
            ops,
            false,
        ) == queue.pending.len() + queue.in_flight,
{
    let draining = queue.drain();
    law_operations_keep_soundness(queue, Op::Drain);
    lemma_drain_balance(draining, ops);
    if 0 <= i < queue.pending.len() {
        assert(draining.pending[i] == queue.pending[i]);
        law_waiting_tasks_leave_only_to_workers(draining, ops, queue.pending[i]);
    }
}

/// Of two tasks submitted one after the other, with anything done in between, that
/// both wait, the more urgent one stands first, and of equally urgent ones the one
/// submitted first. Each waits with the priority and the task it was submitted
/// with.
pub proof fn law_submitted_priorities_decide<F, T, C>(
    before: QueueModel<F, T, C>,
    priority: Priority,
    task: F,
    submitted: (TaskHandle<T>, Option<F>),
    after: QueueModel<F, T, C>,
    ops: Seq<Op<F, T, C>>,
    other_priority: Priority,
    other_task: F,
    other: (TaskHandle<T>, Option<F>),
    end: QueueModel<F, T, C>,
    i: int,
    j: int,
)
    requires
        before.wf(),
        before.next_sequence < u64::MAX,
        submission(before, priority, task, submitted, after),
        after.enables_all(ops),
        after.apply_all(ops).next_sequence < u64::MAX,
        submission(after.apply_all(ops), other_priority, other_task, other, end),
        0 <= i < end.pending.len(),
        0 <= j < end.pending.len(),
        submitted.0@ == SlotRef::<T>::Shared(end.pending[i].sequence),
        other.0@ == SlotRef::<T>::Shared(end.pending[j].sequence),
    ensures
        end.pending[i].priority == priority,
        end.pending[i].task == task,
        end.pending[j].priority == other_priority,
        end.pending[j].task == other_task,
        i < j <==> more_urgent(priority, other_priority) || priority == other_priority,
        j < i <==> more_urgent(other_priority, priority),
{
    let middle = after.apply_all(ops);
    let first_at = choose|enqueued_at: Instant|
        after == before.accept(priority, task, enqueued_at) && call_ensures(
            Instant::now,
            (),
            enqueued_at,
        );
    let second_at = choose|enqueued_at: Instant|
        end == middle.accept(other_priority, other_task, enqueued_at) && call_ensures(
            Instant::now,
            (),
            enqueued_at,
        );
    let first = before.entry(priority, task, first_at);
    let second = middle.entry(other_priority, other_task, second_at);
    before.accept_wf(priority, task, first_at);
    law_histories_keep_soundness(after, ops);
    middle.accept_wf(other_priority, other_task, second_at);
    lemma_numbers_only_grow(after, ops);
    // The second entry is at its place.
    lemma_place_splits(middle.pending, second);
    let at = place(middle.pending, second) as int;
    assert(end.pending[at] == second);
    assert(end.pending[j].sequence == end.pending[at].sequence);
    assert(j == at);
    // The first one waited before the second came.
    let k = if i < at {
        i
    } else {
        i - 1
    };
    assert(i != at);
    assert(middle.pending[k] == end.pending[i]);
    law_waiting_tasks_stay_themselves(after, ops, k);
    lemma_place_splits(before.pending, first);
    let p = place(before.pending, first) as int;
    assert(after.pending[p] == first);
    let q = choose|q: int| 0 <= q < after.pending.len() && after.pending[q] == middle.pending[k];
    assert(after.pending[q].sequence == after.pending[p].sequence);
    assert(q == p);
    if i < j {
        assert(end.pending[i].runs_before(end.pending[j]));
    } else {
        assert(end.pending[j].runs_before(end.pending[i]));
    }
}

} // verus!
