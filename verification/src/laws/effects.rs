//! What each operation changes of a queue, and what it leaves alone.

use crate::clock::{duration_nanos, instant_nanos};
use crate::entry::{in_order, lemma_place_splits, place, QueueEntry};
use crate::error::TaskError;
use crate::handle::{SlotRef, TaskHandle};
use crate::model::QueueModel;
use crate::preservation::{lemma_running_bounds, lemma_running_none};
use crate::priority::Priority;
use crate::queue::submission;
use crate::slot::outcome_of;
use crate::stats::at_most;
use crate::worker::{Worker, WorkerAction, WorkerEvent};
use core::cmp::Ordering;
use std::time::Instant;
use vstd::prelude::*;
use vstd::std_specs::cmp::{PartialEqSpec, PartialOrdSpec};

verus! {

/// Whether a task of the one priority is more urgent than a task of the other.
pub open spec fn more_urgent(priority: Priority, other: Priority) -> bool {
    match (priority, other) {
        (Priority::High, Priority::Normal) => true,
        (Priority::High, Priority::Low) => true,
        (Priority::Normal, Priority::Low) => true,
        _ => false,
    }
}

/// Of two waiting tasks the more urgent one is due first, and of two equally
/// urgent ones that with the smaller number. Entries compare accordingly, and
/// are equal if neither is due first.
pub proof fn law_entries_are_due_by_urgency_then_age<F>(a: QueueEntry<F>, b: QueueEntry<F>)
    ensures
        a.runs_before(b) <==> more_urgent(a.priority, b.priority) || (a.priority == b.priority
            && a.sequence < b.sequence),
        a.partial_cmp_spec(&b) == Some(Ordering::Greater) <==> a.runs_before(b),
        a.partial_cmp_spec(&b) == Some(Ordering::Less) <==> b.runs_before(a),
        a.partial_cmp_spec(&b) == Some(Ordering::Equal) <==> a.eq_spec(&b),
        a.eq_spec(&b) <==> a.priority == b.priority && a.sequence == b.sequence,
{
}

/// The place of an entry among entries in order is the one place where those due
/// before it all stand in front of it and no other does.
pub proof fn law_place_parts_the_entries<F>(entries: Seq<QueueEntry<F>>, entry: QueueEntry<F>)
    requires
        in_order(entries),
    ensures
        0 <= place(entries, entry) <= entries.len(),
        forall|i: int|
            0 <= i < entries.len() ==> (i < place(entries, entry) <==> more_urgent(
                (#[trigger] entries[i]).priority,
                entry.priority,
            ) || (entries[i].priority == entry.priority && entries[i].sequence < entry.sequence)),
{
    lemma_place_splits(entries, entry);
}

/// Waiting tasks stand in the order in which they are due, are no more than the
/// limit allows, and each has a number of its own that was given out.
pub proof fn law_waiting_tasks_stand_in_order<F, T, C>(
    queue: QueueModel<F, T, C>,
    i: int,
    j: int,
)
    requires
        queue.wf(),
        0 <= i < j < queue.pending.len(),
    ensures
        more_urgent(queue.pending[i].priority, queue.pending[j].priority) || (
        queue.pending[i].priority == queue.pending[j].priority && queue.pending[i].sequence
            < queue.pending[j].sequence),
        queue.pending[i].sequence != queue.pending[j].sequence,
        queue.pending[i].sequence < queue.next_sequence,
        queue.pending[j].sequence < queue.next_sequence,
        queue.max_queued matches Some(limit) ==> queue.pending.len() <= limit,
{
    assert(queue.pending[i].runs_before(queue.pending[j]));
}

/// The numbers that a queue keeps mean what they say: as many tasks were
/// submitted as numbers were given out, a task is in flight if and only if a
/// worker executes one, the finished ones are those with a latency, and until a
/// shutdown every submitted task waits, is in flight or has finished.
pub proof fn law_counters_mean_what_they_say<F, T, C>(queue: QueueModel<F, T, C>)
    requires
        queue.wf(),
    ensures
        queue.workers.len() > 0,
        queue.total_submitted == queue.next_sequence,
        queue.in_flight == 0 <==> forall|w: int|
            0 <= w < queue.workers.len() ==> !((#[trigger] queue.workers[w]) is Running),
        queue.in_flight <= queue.workers.len(),
        queue.samples == queue.completed + queue.failed,
        queue.total_submitted >= queue.completed + queue.failed + queue.in_flight
            + queue.pending.len(),
        !queue.shutdown ==> queue.total_submitted == queue.completed + queue.failed
            + queue.in_flight + queue.pending.len(),
{
    lemma_running_bounds(queue.workers);
    if forall|w: int| 0 <= w < queue.workers.len() ==> !((#[trigger] queue.workers[w]) is Running) {
        lemma_running_none(queue.workers);
    }
}

/// A task whose handle is held has no outcome exactly as long as it waits or a
/// worker has it.
pub proof fn law_outcomes_are_owed_to_waiting_and_taken_tasks<F, T, C>(
    queue: QueueModel<F, T, C>,
    sequence: u64,
)
    requires
        queue.wf(),
        queue.slots.contains_key(sequence),
    ensures
        queue.slots[sequence].value is None <==> (exists|i: int|
            0 <= i < queue.pending.len() && (#[trigger] queue.pending[i]).sequence == sequence) || (
        exists|w: int|
            0 <= w < queue.workers.len() && match #[trigger] queue.workers[w] {
                Worker::Running { sequence: held, .. } => held == sequence,
                Worker::Reporting { sequence: held, .. } => held == sequence,
                _ => false,
            }),
        sequence < queue.next_sequence,
{
    if queue.is_held(sequence) {
        let w = choose|w: int|
            0 <= w < queue.workers.len() && (#[trigger] queue.workers[w]).task() == Some(sequence);
        assert(match queue.workers[w] {
            Worker::Running { sequence: held, .. } => held == sequence,
            Worker::Reporting { sequence: held, .. } => held == sequence,
            _ => false,
        });
    }
    if exists|w: int|
        0 <= w < queue.workers.len() && match #[trigger] queue.workers[w] {
            Worker::Running { sequence: held, .. } => held == sequence,
            Worker::Reporting { sequence: held, .. } => held == sequence,
            _ => false,
        } {
        let w = choose|w: int|
            0 <= w < queue.workers.len() && match #[trigger] queue.workers[w] {
                Worker::Running { sequence: held, .. } => held == sequence,
                Worker::Reporting { sequence: held, .. } => held == sequence,
                _ => false,
            };
        assert(queue.workers[w].task() == Some(sequence));
    }
}

/// A new queue is open and not paused, has nothing in it and nothing counted, and
/// all its workers are idle.
pub proof fn law_new_queue_is_open_and_empty<F, T, C>(concurrency: nat)
    ensures
        ({
            let queue = QueueModel::<F, T, C>::initial(concurrency);
            &&& queue.pending.len() == 0
            &&& !queue.shutdown
            &&& !queue.draining
            &&& !queue.paused
            &&& queue.max_queued is None
            &&& queue.callback is None
            &&& queue.next_sequence == 0
            &&& queue.total_submitted == 0
            &&& queue.completed == 0
            &&& queue.failed == 0
            &&& queue.in_flight == 0
            &&& queue.total_nanos == 0
            &&& queue.samples == 0
            &&& queue.workers.len() == concurrency
            &&& forall|w: int| 0 <= w < concurrency ==> (#[trigger] queue.workers[w]) is Idle
            &&& forall|s: u64| !(#[trigger] queue.slots.contains_key(s))
        }),
{
}

/// A limit is kept as it was given, and changes nothing else.
pub proof fn law_limit_is_kept_as_given<F, T, C>(queue: QueueModel<F, T, C>, limit: usize)
    ensures
        queue.limited(limit).max_queued == Some(limit),
        queue.limited(limit).pending == queue.pending,
        queue.limited(limit).shutdown == queue.shutdown,
        queue.limited(limit).draining == queue.draining,
        queue.limited(limit).paused == queue.paused,
        queue.limited(limit).next_sequence == queue.next_sequence,
        queue.limited(limit).total_submitted == queue.total_submitted,
        queue.limited(limit).completed == queue.completed,
        queue.limited(limit).failed == queue.failed,
        queue.limited(limit).in_flight == queue.in_flight,
        queue.limited(limit).total_nanos == queue.total_nanos,
        queue.limited(limit).samples == queue.samples,
        queue.limited(limit).workers == queue.workers,
        queue.limited(limit).slots == queue.slots,
        queue.limited(limit).callback == queue.callback,
{
}

/// After pausing a queue is paused, and after resuming it is not, whatever its
/// state. Nothing else changes, and right after a pause a queue that is not
/// draining makes a worker wait for its tasks, right after a resumption a queue
/// with waiting tasks gives the first of them out.
pub proof fn law_pausing_sets_the_pause_alone<F, T, C>(
    queue: QueueModel<F, T, C>,
    paused: bool,
    worker: int,
    action: WorkerAction<F, T>,
)
    ensures
        queue.set_paused(paused).paused == paused,
        queue.set_paused(paused).pending == queue.pending,
        queue.set_paused(paused).shutdown == queue.shutdown,
        queue.set_paused(paused).draining == queue.draining,
        queue.set_paused(paused).next_sequence == queue.next_sequence,
        queue.set_paused(paused).max_queued == queue.max_queued,
        queue.set_paused(paused).total_submitted == queue.total_submitted,
        queue.set_paused(paused).completed == queue.completed,
        queue.set_paused(paused).failed == queue.failed,
        queue.set_paused(paused).in_flight == queue.in_flight,
        queue.set_paused(paused).total_nanos == queue.total_nanos,
        queue.set_paused(paused).samples == queue.samples,
        queue.set_paused(paused).workers == queue.workers,
        queue.set_paused(paused).slots == queue.slots,
        queue.set_paused(paused).callback == queue.callback,
        paused && !queue.draining && queue.set_paused(paused).answers(
            worker,
            WorkerEvent::Ready,
            action,
        ) ==> !(action is Run),
        paused && !queue.draining && !queue.shutdown && queue.set_paused(paused).answers(
            worker,
            WorkerEvent::Ready,
            action,
        ) ==> action is Wait,
        !paused && queue.pending.len() > 0 && queue.set_paused(paused).answers(
            worker,
            WorkerEvent::Ready,
            action,
        ) ==> (action matches WorkerAction::Run { task, .. } && task == queue.pending[0].task),
{
}

/// Registering a callback changes the callback and nothing else.
pub proof fn law_callback_is_kept_as_given<F, T, C>(queue: QueueModel<F, T, C>, callback: C)
    ensures
        queue.set_callback(callback).callback == Some(callback),
        queue.set_callback(callback).pending == queue.pending,
        queue.set_callback(callback).shutdown == queue.shutdown,
        queue.set_callback(callback).draining == queue.draining,
        queue.set_callback(callback).paused == queue.paused,
        queue.set_callback(callback).next_sequence == queue.next_sequence,
        queue.set_callback(callback).max_queued == queue.max_queued,
        queue.set_callback(callback).total_submitted == queue.total_submitted,
        queue.set_callback(callback).completed == queue.completed,
        queue.set_callback(callback).failed == queue.failed,
        queue.set_callback(callback).in_flight == queue.in_flight,
        queue.set_callback(callback).total_nanos == queue.total_nanos,
        queue.set_callback(callback).samples == queue.samples,
        queue.set_callback(callback).workers == queue.workers,
        queue.set_callback(callback).slots == queue.slots,
{
}

/// A queue refuses a task as cancelled if and only if it is draining or shut down,
/// and as one too many if and only if it is open and as many wait as its limit
/// allows. Otherwise it refuses nothing.
pub proof fn law_refusals_have_two_reasons<F, T, C>(queue: QueueModel<F, T, C>)
    ensures
        queue.refusal() == Some(TaskError::Cancelled) <==> queue.draining || queue.shutdown,
        queue.refusal() == Some(TaskError::QueueFull) <==> !queue.draining && !queue.shutdown && (
        queue.max_queued matches Some(limit) && queue.pending.len() >= limit),
        queue.refusal() is None <==> !queue.draining && !queue.shutdown && (
        queue.max_queued matches Some(limit) ==> queue.pending.len() < limit),
{
}

/// A task submitted to a closed queue or to a full one comes back, with a handle
/// that has the error, and nothing changes.
pub proof fn law_refused_task_comes_back<F, T, C>(
    before: QueueModel<F, T, C>,
    priority: Priority,
    task: F,
    submitted: (TaskHandle<T>, Option<F>),
    after: QueueModel<F, T, C>,
)
    requires
        submission(before, priority, task, submitted, after),
        before.draining || before.shutdown || (before.max_queued matches Some(limit)
            && before.pending.len() >= limit),
    ensures
        after == before,
        submitted.1 == Some(task),
        submitted.0@ matches SlotRef::Own(slot) && slot.value == Some(
            Err::<T, TaskError>(
                if before.draining || before.shutdown {
                    TaskError::Cancelled
                } else {
                    TaskError::QueueFull
                },
            ),
        ),
{
}

/// A task submitted to an open queue with room is taken in. It waits under the
/// next number with the priority it was submitted with, at a time read from the
/// clock, among the tasks that waited before, which keep their order. Its handle
/// has that number and no outcome yet. Nothing else changes.
pub proof fn law_accepted_task_waits_as_submitted<F, T, C>(
    before: QueueModel<F, T, C>,
    priority: Priority,
    task: F,
    submitted: (TaskHandle<T>, Option<F>),
    after: QueueModel<F, T, C>,
)
    requires
        before.wf(),
        before.next_sequence < u64::MAX,
        submission(before, priority, task, submitted, after),
        !before.draining,
        !before.shutdown,
        before.max_queued matches Some(limit) ==> before.pending.len() < limit,
    ensures
        submitted.1 is None,
        submitted.0@ matches SlotRef::Shared(sequence) && sequence == before.next_sequence,
        exists|at: int|
            {
                &&& 0 <= at <= before.pending.len()
                &&& after.pending == before.pending.insert(at, #[trigger] after.pending[at])
                &&& after.pending[at].sequence == before.next_sequence
                &&& after.pending[at].priority == priority
                &&& after.pending[at].task == task
                &&& call_ensures(Instant::now, (), after.pending[at].enqueued_at)
            },
        after.next_sequence == before.next_sequence + 1,
        after.total_submitted == before.total_submitted + 1,
        after.slots.contains_key(before.next_sequence as u64),
        after.slots[before.next_sequence as u64].value is None,
        forall|s: u64|
            s != before.next_sequence ==> (#[trigger] after.slots.contains_key(s)
                <==> before.slots.contains_key(s)) && after.slots[s] == before.slots[s],
        after.shutdown == before.shutdown,
        after.draining == before.draining,
        after.paused == before.paused,
        after.max_queued == before.max_queued,
        after.completed == before.completed,
        after.failed == before.failed,
        after.in_flight == before.in_flight,
        after.total_nanos == before.total_nanos,
        after.samples == before.samples,
        after.workers == before.workers,
        after.callback == before.callback,
{
    let enqueued_at = choose|enqueued_at: Instant|
        after == before.accept(priority, task, enqueued_at) && call_ensures(
            Instant::now,
            (),
            enqueued_at,
        );
    let entry = before.entry(priority, task, enqueued_at);
    let at = place(before.pending, entry) as int;
    lemma_place_splits(before.pending, entry);
    assert(after.pending[at] == entry);
}

/// A worker that asks for a task is given the first waiting one if there is one
/// and the queue is not paused or is draining, whatever else there is. It is told
/// to leave if it gets none and the queue is shut down, or is draining with
/// nothing left. Only otherwise it is told to wait: with tasks waiting, only by a
/// queue that is paused and not draining.
pub proof fn law_idle_workers_get_waiting_tasks<F, T, C>(
    queue: QueueModel<F, T, C>,
    worker: int,
    action: WorkerAction<F, T>,
)
    requires
        queue.answers(worker, WorkerEvent::Ready, action),
    ensures
        queue.pending.len() > 0 && (!queue.paused || queue.draining) <==> action is Run,
        action matches WorkerAction::Run { task, enqueued_at } ==> task == queue.pending[0].task
            && enqueued_at == queue.pending[0].enqueued_at,
        action is Exit <==> (queue.shutdown || queue.draining) && !(queue.pending.len() > 0 && (
        !queue.paused || queue.draining)),
        action is Wait <==> !queue.shutdown && !queue.draining && (queue.pending.len() == 0
            || queue.paused),
        action is Run || action is Exit || action is Wait,
{
}

/// A worker that is given a task takes it out of the waiting ones, the others
/// keep their order, one task more is in flight, and nothing else changes.
pub proof fn law_given_task_moves_to_its_worker<F, T, C>(
    queue: QueueModel<F, T, C>,
    worker: int,
)
    requires
        0 <= worker < queue.workers.len(),
        queue.pending.len() > 0,
        !queue.paused || queue.draining,
    ensures
        ({
            let after = queue.step(worker, WorkerEvent::Ready);
            &&& seq![queue.pending[0]] + after.pending == queue.pending
            &&& after.in_flight == queue.in_flight + 1
            &&& after.workers[worker] == (Worker::<T>::Running {
                sequence: queue.pending[0].sequence,
                enqueued_at: queue.pending[0].enqueued_at,
            })
            &&& after.workers.len() == queue.workers.len()
            &&& forall|w: int|
                0 <= w < queue.workers.len() && w != worker ==> #[trigger] after.workers[w]
                    == queue.workers[w]
            &&& after.shutdown == queue.shutdown
            &&& after.draining == queue.draining
            &&& after.paused == queue.paused
            &&& after.next_sequence == queue.next_sequence
            &&& after.max_queued == queue.max_queued
            &&& after.total_submitted == queue.total_submitted
            &&& after.completed == queue.completed
            &&& after.failed == queue.failed
            &&& after.total_nanos == queue.total_nanos
            &&& after.samples == queue.samples
            &&& after.slots == queue.slots
            &&& after.callback == queue.callback
        }),
{
    let after = queue.step(worker, WorkerEvent::Ready);
    assert(seq![queue.pending[0]] + after.pending =~= queue.pending);
}

/// A worker that gets no task stays idle if the queue is open, and leaves if the
/// queue is closed. Nothing else changes.
pub proof fn law_worker_without_task_waits_or_leaves<F, T, C>(
    queue: QueueModel<F, T, C>,
    worker: int,
)
    requires
        0 <= worker < queue.workers.len(),
        queue.workers[worker] is Idle,
        queue.pending.len() == 0 || (queue.paused && !queue.draining),
    ensures
        ({
            let after = queue.step(worker, WorkerEvent::Ready);
            &&& after.workers[worker] is Stopped <==> queue.shutdown || queue.draining
            &&& after.workers[worker] is Idle <==> !queue.shutdown && !queue.draining
            &&& after.workers.len() == queue.workers.len()
            &&& forall|w: int|
                0 <= w < queue.workers.len() && w != worker ==> #[trigger] after.workers[w]
                    == queue.workers[w]
            &&& after.pending == queue.pending
            &&& after.shutdown == queue.shutdown
            &&& after.draining == queue.draining
            &&& after.paused == queue.paused
            &&& after.next_sequence == queue.next_sequence
            &&& after.max_queued == queue.max_queued
            &&& after.total_submitted == queue.total_submitted
            &&& after.completed == queue.completed
            &&& after.failed == queue.failed
            &&& after.in_flight == queue.in_flight
            &&& after.total_nanos == queue.total_nanos
            &&& after.samples == queue.samples
            &&& after.slots == queue.slots
            &&& after.callback == queue.callback
        }),
{
}

/// A worker that comes back from its task is told to report whether the task
/// returned and how long it was executed. The task is counted as returned or
/// panicked, is not in flight any more, and the time since its submission goes
/// into the sum of latencies, as far as that can hold it. The worker keeps the
/// outcome: what the task returned, or that it panicked. Nothing else changes.
pub proof fn law_finished_task_is_counted_once<F, T, C>(
    queue: QueueModel<F, T, C>,
    worker: int,
    sequence: u64,
    enqueued_at: Instant,
    returned: Option<T>,
    started_at: Instant,
    finished_at: Instant,
    action: WorkerAction<F, T>,
)
    requires
        queue.wf(),
        0 <= worker < queue.workers.len(),
        queue.workers[worker] == (Worker::<T>::Running { sequence, enqueued_at }),
        queue.answers(
            worker,
            WorkerEvent::Finished { returned, started_at, finished_at },
            action,
        ),
    ensures
        action matches WorkerAction::Report { success, elapsed } && (success <==> returned is Some)
            && (instant_nanos(started_at) <= instant_nanos(finished_at) ==> instant_nanos(
            started_at,
        ) + duration_nanos(elapsed) == instant_nanos(finished_at)) && (instant_nanos(finished_at)
            <= instant_nanos(started_at) ==> duration_nanos(elapsed) == 0),
        ({
            let after = queue.step(
                worker,
                WorkerEvent::Finished { returned, started_at, finished_at },
            );
            let latency = instant_nanos(finished_at) - instant_nanos(enqueued_at);
            &&& after.in_flight == queue.in_flight - 1
            &&& after.samples == queue.samples + 1
            &&& returned is Some ==> after.completed == queue.completed + 1 && after.failed
                == queue.failed
            &&& returned is None ==> after.completed == queue.completed && after.failed
                == queue.failed + 1
            &&& latency <= 0 ==> after.total_nanos == queue.total_nanos
            &&& latency >= 0 && queue.total_nanos + latency <= u128::MAX ==> after.total_nanos
                == queue.total_nanos + latency
            &&& latency >= 0 && queue.total_nanos + latency >= u128::MAX ==> after.total_nanos
                == u128::MAX
            &&& after.workers[worker] == (Worker::<T>::Reporting {
                sequence,
                value: match returned {
                    Some(value) => Ok(value),
                    None => Err(TaskError::Panicked),
                },
            })
            &&& after.workers.len() == queue.workers.len()
            &&& forall|w: int|
                0 <= w < queue.workers.len() && w != worker ==> #[trigger] after.workers[w]
                    == queue.workers[w]
            &&& after.pending == queue.pending
            &&& after.shutdown == queue.shutdown
            &&& after.draining == queue.draining
            &&& after.paused == queue.paused
            &&& after.next_sequence == queue.next_sequence
            &&& after.max_queued == queue.max_queued
            &&& after.total_submitted == queue.total_submitted
            &&& after.slots == queue.slots
            &&& after.callback == queue.callback
        }),
{
    lemma_running_bounds(queue.workers);
}

/// A worker that has reported hands its outcome to the handle of the task, if it
/// is still held, or is given it back. It is idle then, and nothing else changes.
pub proof fn law_reported_outcome_reaches_its_handle<F, T, C>(
    queue: QueueModel<F, T, C>,
    worker: int,
    sequence: u64,
    value: Result<T, TaskError>,
    action: WorkerAction<F, T>,
)
    requires
        0 <= worker < queue.workers.len(),
        queue.workers[worker] == (Worker::<T>::Reporting { sequence, value }),
        queue.answers(worker, WorkerEvent::Reported, action),
    ensures
        ({
            let after = queue.step(worker, WorkerEvent::Reported);
            &&& queue.slots.contains_key(sequence) ==> after.slots[sequence].value == Some(value)
                && action == (WorkerAction::<F, T>::Continue { unclaimed: None })
            &&& !queue.slots.contains_key(sequence) ==> action == (WorkerAction::<F, T>::Continue {
                unclaimed: Some(value),
            })
            &&& forall|s: u64| #[trigger]
                after.slots.contains_key(s) <==> queue.slots.contains_key(s)
            &&& forall|s: u64|
                #![trigger after.slots[s]]
                s != sequence ==> after.slots[s] == queue.slots[s]
            &&& after.workers[worker] is Idle
            &&& after.workers.len() == queue.workers.len()
            &&& forall|w: int|
                0 <= w < queue.workers.len() && w != worker ==> #[trigger] after.workers[w]
                    == queue.workers[w]
            &&& after.pending == queue.pending
            &&& after.shutdown == queue.shutdown
            &&& after.draining == queue.draining
            &&& after.paused == queue.paused
            &&& after.next_sequence == queue.next_sequence
            &&& after.max_queued == queue.max_queued
            &&& after.total_submitted == queue.total_submitted
            &&& after.completed == queue.completed
            &&& after.failed == queue.failed
            &&& after.in_flight == queue.in_flight
            &&& after.total_nanos == queue.total_nanos
            &&& after.samples == queue.samples
            &&& after.callback == queue.callback
        }),
{
}

/// Asking a queue to drain closes it and does nothing to its tasks: those that
/// wait still wait, those that workers have are still theirs, and nothing is
/// counted. Only if nothing waits and nothing is in flight the queue is shut down
/// as well, and only then it was drained.
pub proof fn law_drain_leaves_tasks_alone<F, T, C>(queue: QueueModel<F, T, C>)
    ensures
        queue.drain().draining,
        queue.drain().shutdown <==> queue.shutdown || (queue.pending.len() == 0 && queue.in_flight
            == 0),
        queue.drained() <==> queue.pending.len() == 0 && queue.in_flight == 0,
        queue.drain().pending == queue.pending,
        queue.drain().paused == queue.paused,
        queue.drain().next_sequence == queue.next_sequence,
        queue.drain().max_queued == queue.max_queued,
        queue.drain().total_submitted == queue.total_submitted,
        queue.drain().completed == queue.completed,
        queue.drain().failed == queue.failed,
        queue.drain().in_flight == queue.in_flight,
        queue.drain().total_nanos == queue.total_nanos,
        queue.drain().samples == queue.samples,
        queue.drain().workers == queue.workers,
        queue.drain().slots == queue.slots,
        queue.drain().callback == queue.callback,
{
    assert(queue.drained() ==> queue.drain().pending =~= queue.pending);
    assert(queue.drain().slots =~= queue.slots);
}

/// Shutting down drops all waiting tasks, and a task has the outcome that it was
/// cancelled if and only if it was dropped or had it before. The tasks that
/// workers have, and all other outcomes, are left alone, and nothing is counted.
pub proof fn law_shutdown_touches_waiting_tasks_alone<F, T, C>(queue: QueueModel<F, T, C>)
    ensures
        queue.close().shutdown,
        queue.close().pending.len() == 0,
        forall|s: u64| #[trigger]
            queue.close().slots.contains_key(s) <==> queue.slots.contains_key(s),
        forall|i: int|
            0 <= i < queue.pending.len() && queue.slots.contains_key(
                (#[trigger] queue.pending[i]).sequence,
            ) ==> queue.close().slots[queue.pending[i].sequence].value == Some(
                Err::<T, TaskError>(TaskError::Cancelled),
            ),
        forall|s: u64| #[trigger]
            queue.slots.contains_key(s) && (forall|i: int|
                0 <= i < queue.pending.len() ==> (#[trigger] queue.pending[i]).sequence != s)
                ==> queue.close().slots[s] == queue.slots[s],
        queue.close().draining == queue.draining,
        queue.close().paused == queue.paused,
        queue.close().next_sequence == queue.next_sequence,
        queue.close().max_queued == queue.max_queued,
        queue.close().total_submitted == queue.total_submitted,
        queue.close().completed == queue.completed,
        queue.close().failed == queue.failed,
        queue.close().in_flight == queue.in_flight,
        queue.close().total_nanos == queue.total_nanos,
        queue.close().samples == queue.samples,
        queue.close().workers == queue.workers,
        queue.close().callback == queue.callback,
{
}

/// Dropping a queue shuts it down. If it was shut down already nothing changes; if
/// it is draining its tasks are left alone; otherwise it is like a shutdown.
pub proof fn law_dropping_shuts_down<F, T, C>(queue: QueueModel<F, T, C>)
    ensures
        queue.abandon().shutdown,
        queue.shutdown || queue.draining ==> queue.abandon().pending == queue.pending
            && queue.abandon().slots == queue.slots,
        !queue.shutdown && !queue.draining ==> queue.abandon().pending == queue.close().pending
            && queue.abandon().slots == queue.close().slots,
        queue.abandon().draining == queue.draining,
        queue.abandon().paused == queue.paused,
        queue.abandon().next_sequence == queue.next_sequence,
        queue.abandon().max_queued == queue.max_queued,
        queue.abandon().total_submitted == queue.total_submitted,
        queue.abandon().completed == queue.completed,
        queue.abandon().failed == queue.failed,
        queue.abandon().in_flight == queue.in_flight,
        queue.abandon().total_nanos == queue.total_nanos,
        queue.abandon().samples == queue.samples,
        queue.abandon().workers == queue.workers,
        queue.abandon().callback == queue.callback,
{
}

/// Giving up a slot forgets that one outcome and changes nothing else.
pub proof fn law_release_forgets_one_outcome<F, T, C>(
    queue: QueueModel<F, T, C>,
    sequence: u64,
)
    ensures
        !queue.release(sequence).slots.contains_key(sequence),
        forall|s: u64|
            s != sequence ==> (#[trigger] queue.release(sequence).slots.contains_key(s)
                <==> queue.slots.contains_key(s)) && queue.release(sequence).slots[s]
                == queue.slots[s],
        queue.release(sequence).pending == queue.pending,
        queue.release(sequence).shutdown == queue.shutdown,
        queue.release(sequence).draining == queue.draining,
        queue.release(sequence).paused == queue.paused,
        queue.release(sequence).next_sequence == queue.next_sequence,
        queue.release(sequence).max_queued == queue.max_queued,
        queue.release(sequence).total_submitted == queue.total_submitted,
        queue.release(sequence).completed == queue.completed,
        queue.release(sequence).failed == queue.failed,
        queue.release(sequence).in_flight == queue.in_flight,
        queue.release(sequence).total_nanos == queue.total_nanos,
        queue.release(sequence).samples == queue.samples,
        queue.release(sequence).workers == queue.workers,
        queue.release(sequence).callback == queue.callback,
{
}

/// A handle of a refused task is good as long as it has its error, and that is
/// its outcome in every queue. A handle of an accepted task is good exactly as
/// long as the queue has the slot with its number, and its outcome is what is in
/// there. Giving up a handle gives up that slot, or nothing.
pub proof fn law_handles_read_their_slot<F, T, C>(
    handle: TaskHandle<T>,
    queue: QueueModel<F, T, C>,
)
    ensures
        match handle@ {
            SlotRef::Own(slot) => {
                &&& handle.belongs_to(queue) <==> slot.value is Some
                &&& handle.outcome(queue) == slot.value
                &&& handle.given_up(queue) == queue
            },
            SlotRef::Shared(sequence) => {
                &&& handle.belongs_to(queue) <==> queue.slots.contains_key(sequence)
                &&& handle.outcome(queue) == queue.slots[sequence].value
                &&& handle.given_up(queue) == queue.release(sequence)
            },
        },
{
}

/// A worker can ask for a task when it is idle, come back from a task when it has
/// one to execute, and say that it has reported when it has one to report.
pub proof fn law_workers_take_their_steps_in_turn<T>(worker: Worker<T>, event: WorkerEvent<T>)
    ensures
        worker.expects(event) <==> match (worker, event) {
            (Worker::Idle, WorkerEvent::Ready) => true,
            (Worker::Running { .. }, WorkerEvent::Finished { .. }) => true,
            (Worker::Reporting { .. }, WorkerEvent::Reported) => true,
            _ => false,
        },
{
}

/// A number held at a limit is the smaller of the two.
pub proof fn law_limited_number_is_the_smaller(value: nat, limit: nat)
    ensures
        at_most(value, limit) <= value,
        at_most(value, limit) <= limit,
        at_most(value, limit) == value || at_most(value, limit) == limit,
{
}

/// A task that returned has its value as outcome, and one that panicked has the
/// error that says so.
pub proof fn law_outcome_is_value_or_panic<T>(returned: Option<T>)
    ensures
        returned matches Some(value) ==> outcome_of(returned) == Ok::<T, TaskError>(value),
        returned is None ==> outcome_of(returned) == Err::<T, TaskError>(TaskError::Panicked),
{
}

} // verus!
