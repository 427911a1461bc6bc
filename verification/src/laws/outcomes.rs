//! What the handles of tasks yield.

use crate::entry::{lemma_place_splits, place};
use crate::error::TaskError;
use crate::handle::{SlotRef, TaskHandle};
use crate::history::{
    law_operations_keep_soundness, leave_handle_alone, leave_worker_alone,
    lemma_left_alone_by_rest, lemma_numbers_only_grow, lemma_settings_stay,
    lemma_worker_steps_keep_soundness, Op,
};
use crate::laws::scheduling::{law_tasks_run_at_most_once, law_waiting_tasks_stay_themselves};
use crate::model::QueueModel;
use crate::priority::Priority;
use crate::queue::submission;
use crate::slot::outcome_of;
use crate::worker::{Worker, WorkerAction, WorkerEvent};
use std::time::Instant;
use vstd::prelude::*;

verus! {

/// A handle stays good until the outcome is asked for or the handle is given up.
pub proof fn law_handles_stay_good<F, T, C>(
    queue: QueueModel<F, T, C>,
    ops: Seq<Op<F, T, C>>,
    handle: TaskHandle<T>,
)
    requires
        handle.belongs_to(queue),
        handle@ matches SlotRef::Shared(sequence) ==> leave_handle_alone(ops, sequence),
    ensures
        handle.belongs_to(queue.apply_all(ops)),
    decreases ops.len(),
{
    if ops.len() > 0 {
        if let SlotRef::Shared(sequence) = handle@ {
            lemma_left_alone_by_rest(ops, sequence, 0);
        }
        law_handles_stay_good(queue.apply(ops[0]), ops.drop_first(), handle);
    }
}

/// The handle of a submitted task is good, and no two accepted tasks share one.
pub proof fn law_handles_are_distinct<F, T, C>(
    before: QueueModel<F, T, C>,
    priority: Priority,
    task: F,
    submitted: (TaskHandle<T>, Option<F>),
    after: QueueModel<F, T, C>,
    ops: Seq<Op<F, T, C>>,
    other_priority: Priority,
    other_task: F,
    other: (TaskHandle<T>, Option<F>),
    end: QueueModel<F, T, C>,
)
    requires
        before.wf(),
        before.refusal() is None,
        before.next_sequence < u64::MAX,
        submission(before, priority, task, submitted, after),
        after.enables_all(ops),
        after.apply_all(ops).refusal() is None,
        after.apply_all(ops).next_sequence < u64::MAX,
        submission(after.apply_all(ops), other_priority, other_task, other, end),
    ensures
        submitted.0.belongs_to(after),
        submitted.0.outcome(after) is None,
        other.0.belongs_to(end),
        other.0.outcome(end) is None,
        submitted.0@ != other.0@,
{
    lemma_numbers_only_grow(after, ops);
}

/// A worker keeps its task, whatever else is done to the queue, until the worker
/// itself comes back.
pub proof fn law_workers_keep_their_task<F, T, C>(
    queue: QueueModel<F, T, C>,
    ops: Seq<Op<F, T, C>>,
    worker: int,
)
    requires
        0 <= worker < queue.workers.len(),
        queue.enables_all(ops),
        leave_worker_alone(ops, worker),
    ensures
        queue.apply_all(ops).workers.len() == queue.workers.len(),
        queue.apply_all(ops).workers[worker] == queue.workers[worker],
    decreases ops.len(),
{
    if ops.len() > 0 {
        lemma_left_alone_by_rest(ops, 0, worker);
        law_workers_keep_their_task(queue.apply(ops[0]), ops.drop_first(), worker);
    }
}

/// The worker whose outcome will reach a handle is given the task for which the
/// handle was returned.
pub proof fn law_task_and_handle_belong_together<F, T, C>(
    before: QueueModel<F, T, C>,
    priority: Priority,
    task: F,
    submitted: (TaskHandle<T>, Option<F>),
    after: QueueModel<F, T, C>,
    ops: Seq<Op<F, T, C>>,
    worker: int,
    sequence: u64,
)
    requires
        before.wf(),
        before.refusal() is None,
        before.next_sequence < u64::MAX,
        submission(before, priority, task, submitted, after),
        submitted.0@ == SlotRef::<T>::Shared(sequence),
        after.enables_all(ops),
        after.apply_all(ops).dispatches(),
        0 <= worker < after.workers.len(),
        after.apply_all(ops).step(worker, WorkerEvent::Ready).workers[worker].task() == Some(
            sequence,
        ),
    ensures
        after.apply_all(ops).offer() matches WorkerAction::Run {
            task: given,
            ..
        } && given == task,
{
    let later = after.apply_all(ops);
    let enqueued_at = choose|enqueued_at: Instant|
        after == before.accept(priority, task, enqueued_at);
    let entry = before.entry(priority, task, enqueued_at);
    let at = place(before.pending, entry) as int;
    before.accept_wf(priority, task, enqueued_at);
    lemma_settings_stay(after, ops);
    lemma_place_splits(before.pending, entry);
    assert(after.pending[at] == entry);
    assert(later.pending[0].sequence == sequence);
    law_waiting_tasks_stay_themselves(after, ops, 0);
    let i = choose|i: int| 0 <= i < after.pending.len() && after.pending[i] == later.pending[0];
    assert(after.pending[i].sequence == after.pending[at].sequence);
    assert(i == at);
}

/// A task has no outcome before it was counted and the callback was called: as
/// long as a worker executes or reports it, whoever asks has to wait.
pub proof fn law_outcome_comes_after_the_report<F, T, C>(
    queue: QueueModel<F, T, C>,
    worker: int,
    handle: TaskHandle<T>,
    sequence: u64,
)
    requires
        queue.wf(),
        0 <= worker < queue.workers.len(),
        queue.workers[worker].task() == Some(sequence),
        handle@ == SlotRef::<T>::Shared(sequence),
        handle.belongs_to(queue),
    ensures
        handle.outcome(queue) is None,
{
    assert(queue.is_held(sequence));
}

/// What a task returns is what its handle yields, and a task that panics yields
/// the error that says so, whatever else is done to the queue while the outcome
/// is being reported.
pub proof fn law_handle_yields_what_the_task_returned<F, T, C>(
    queue: QueueModel<F, T, C>,
    worker: int,
    handle: TaskHandle<T>,
    sequence: u64,
    returned: Option<T>,
    started_at: Instant,
    finished_at: Instant,
    meanwhile: Seq<Op<F, T, C>>,
)
    requires
        queue.wf(),
        0 <= worker < queue.workers.len(),
        queue.workers[worker] is Running,
        queue.workers[worker].task() == Some(sequence),
        handle@ == SlotRef::<T>::Shared(sequence),
        handle.belongs_to(queue),
        queue.step(worker, WorkerEvent::Finished { returned, started_at, finished_at }).enables_all(
            meanwhile,
        ),
        leave_handle_alone(meanwhile, sequence),
        leave_worker_alone(meanwhile, worker),
    ensures
        ({
            let reporting = queue.step(
                worker,
                WorkerEvent::Finished { returned, started_at, finished_at },
            ).apply_all(meanwhile);
            let delivered = reporting.step(worker, WorkerEvent::Reported);
            &&& reporting.workers[worker].expects(WorkerEvent::Reported)
            &&& handle.belongs_to(delivered)
            &&& handle.outcome(delivered) == Some(outcome_of(returned))
            &&& delivered.workers[worker] is Idle
        }),
{
    let finished = queue.step(worker, WorkerEvent::Finished { returned, started_at, finished_at });
    law_workers_keep_their_task(finished, meanwhile, worker);
    law_handles_stay_good(finished, meanwhile, handle);
}

/// A task submitted to an open queue with nothing waiting and a free worker
/// runs next, and its handle yields what it returned.
pub proof fn law_submitted_task_runs_and_answers<F, T, C>(
    queue: QueueModel<F, T, C>,
    priority: Priority,
    task: F,
    submitted: (TaskHandle<T>, Option<F>),
    accepted: QueueModel<F, T, C>,
    worker: int,
    returned: Option<T>,
    started_at: Instant,
    finished_at: Instant,
)
    requires
        queue.wf(),
        queue.refusal() is None,
        queue.next_sequence < u64::MAX,
        queue.pending.len() == 0,
        !queue.paused,
        0 <= worker < queue.workers.len(),
        queue.workers[worker] is Idle,
        submission(queue, priority, task, submitted, accepted),
    ensures
        ({
            let running = accepted.step(worker, WorkerEvent::Ready);
            let reporting = running.step(
                worker,
                WorkerEvent::Finished { returned, started_at, finished_at },
            );
            let delivered = reporting.step(worker, WorkerEvent::Reported);
            &&& accepted.offer() matches WorkerAction::Run {
                task: given,
                ..
            } && given == task
            &&& submitted.0.outcome(accepted) is None
            &&& submitted.0.outcome(delivered) == Some(outcome_of(returned))
            &&& delivered.total_submitted == queue.total_submitted + 1
            &&& delivered.completed + delivered.failed == queue.completed + queue.failed + 1
        }),
{
    let enqueued_at = choose|enqueued_at: Instant|
        accepted == queue.accept(priority, task, enqueued_at);
    let entry = queue.entry(priority, task, enqueued_at);
    lemma_place_splits(queue.pending, entry);
    assert(accepted.pending =~= seq![entry]);
    queue.accept_wf(priority, task, enqueued_at);
    accepted.dispatch_wf(worker);
    law_handle_yields_what_the_task_returned(
        accepted.dispatch(worker),
        worker,
        submitted.0,
        entry.sequence,
        returned,
        started_at,
        finished_at,
        Seq::empty(),
    );
}

/// An outcome, once there, stays until it is asked for or its handle is given
/// up.
pub proof fn law_outcomes_are_final<F, T, C>(
    queue: QueueModel<F, T, C>,
    ops: Seq<Op<F, T, C>>,
    sequence: u64,
)
    requires
        queue.wf(),
        queue.enables_all(ops),
        queue.slots.contains_key(sequence),
        queue.slots[sequence].value is Some,
        leave_handle_alone(ops, sequence),
    ensures
        queue.apply_all(ops).slots.contains_key(sequence),
        queue.apply_all(ops).slots[sequence] == queue.slots[sequence],
    decreases ops.len(),
{
    if ops.len() > 0 {
        let op = ops[0];
        let next = queue.apply(op);
        law_operations_keep_soundness(queue, op);
        assert(!queue.is_pending(sequence) && !queue.is_held(sequence));
        assert(next.slots.contains_key(sequence) && next.slots[sequence] == queue.slots[sequence])
            by {
            match op {
                Op::Work { worker, event } => {
                    assert(queue.workers[worker].task() != Some(sequence));
                },
                _ => {},
            }
        }
        lemma_left_alone_by_rest(ops, sequence, 0);
        law_outcomes_are_final(next, ops.drop_first(), sequence);
    }
}

/// Whether what is known of the task with that number agrees with what a worker
/// has come back with from it so far.
spec fn agrees<F, T, C>(
    queue: QueueModel<F, T, C>,
    sequence: u64,
    back: Option<Option<T>>,
) -> bool {
    &&& sequence >= queue.next_sequence || queue.is_pending(sequence) ==> back is None
    &&& forall|w: int|
        0 <= w < queue.workers.len() ==> match #[trigger] queue.workers[w] {
            Worker::Running { sequence: held, .. } => held == sequence ==> back is None,
            Worker::Reporting { sequence: held, value } => held == sequence ==> back is Some
                && value == outcome_of(back->0),
            _ => true,
        }
    &&& queue.slots.contains_key(sequence) && queue.slots[sequence].value is Some
        ==> queue.slots[sequence].value == Some(
        match back {
            Some(returned) => outcome_of(returned),
            None => Err(TaskError::Cancelled),
        },
    )
}

/// Every operation keeps the agreement.
proof fn lemma_agreement_stays<F, T, C>(
    queue: QueueModel<F, T, C>,
    op: Op<F, T, C>,
    sequence: u64,
    back: Option<Option<T>>,
)
    requires
        queue.wf(),
        queue.enables(op),
        agrees(queue, sequence, back),
    ensures
        agrees(
            queue.apply(op),
            sequence,
            if queue.comes_back(op, sequence) is Some {
                queue.comes_back(op, sequence)
            } else {
                back
            },
        ),
        back is Some ==> queue.comes_back(op, sequence) is None,
{
    let next = queue.apply(op);
    law_operations_keep_soundness(queue, op);
    if sequence < queue.next_sequence && !queue.is_pending(sequence) {
        lemma_no_return(queue, op, sequence);
    }
    match op {
        Op::Submit { priority, task, enqueued_at } => {
            if queue.refusal() is None {
                lemma_place_splits(queue.pending, queue.entry(priority, task, enqueued_at));
            }
        },
        Op::Work { worker, event } => {
            let before = queue.workers[worker];
            let after = next.workers[worker];
            assert forall|w: int| 0 <= w < next.workers.len() && w != worker implies (
            #[trigger] next.workers[w]) == queue.workers[w] by {}
            if before.task() is Some {
                assert(!queue.is_pending(before.task()->0));
            }
            if event is Ready && queue.dispatches() {
                assert(queue.is_pending(queue.pending[0].sequence));
            }
        },
        _ => {},
    }
}

/// A task that does not wait any more does not wait after another operation.
proof fn lemma_no_return<F, T, C>(queue: QueueModel<F, T, C>, op: Op<F, T, C>, sequence: u64)
    requires
        queue.wf(),
        queue.enables(op),
        sequence < queue.next_sequence,
        !queue.is_pending(sequence),
    ensures
        !queue.apply(op).is_pending(sequence),
{
    reveal_with_fuel(QueueModel::apply_all, 2);
    reveal_with_fuel(QueueModel::enables_all, 2);
    law_tasks_run_at_most_once(queue, seq![op], sequence);
}

/// Operations one after another keep the agreement.
proof fn lemma_agreement_over_histories<F, T, C>(
    queue: QueueModel<F, T, C>,
    ops: Seq<Op<F, T, C>>,
    sequence: u64,
    back: Option<Option<T>>,
)
    requires
        queue.wf(),
        queue.enables_all(ops),
        agrees(queue, sequence, back),
    ensures
        agrees(
            queue.apply_all(ops),
            sequence,
            if back is Some {
                back
            } else {
                queue.came_back(ops, sequence)
            },
        ),
        back is Some ==> queue.came_back(ops, sequence) is None,
    decreases ops.len(),
{
    if ops.len() > 0 {
        let next = if queue.comes_back(ops[0], sequence) is Some {
            queue.comes_back(ops[0], sequence)
        } else {
            back
        };
        law_operations_keep_soundness(queue, ops[0]);
        lemma_agreement_stays(queue, ops[0], sequence, back);
        lemma_agreement_over_histories(queue.apply(ops[0]), ops.drop_first(), sequence, next);
    }
}

/// The outcome of an accepted task tells what happened to it since before it was
/// submitted: it is a value exactly when a worker came back from the task with
/// that value, it says that the task panicked exactly when a worker came back
/// with nothing, and that it was cancelled exactly when no worker came back. It
/// never says that the task was rejected.
pub proof fn law_outcomes_tell_what_happened<F, T, C>(
    queue: QueueModel<F, T, C>,
    ops: Seq<Op<F, T, C>>,
    sequence: u64,
    outcome: Result<T, TaskError>,
)
    requires
        queue.wf(),
        queue.enables_all(ops),
        queue.next_sequence <= sequence,
        queue.apply_all(ops).slots.contains_key(sequence),
        queue.apply_all(ops).slots[sequence].value == Some(outcome),
    ensures
        outcome matches Ok(value) ==> queue.came_back(ops, sequence) == Some(Some(value)),
        queue.came_back(ops, sequence) matches Some(Some(value)) ==> outcome == Ok::<T, TaskError>(
            value,
        ),
        queue.came_back(ops, sequence) == Some(None::<T>) <==> outcome == Err::<T, TaskError>(
            TaskError::Panicked,
        ),
        queue.came_back(ops, sequence) is None <==> outcome == Err::<T, TaskError>(
            TaskError::Cancelled,
        ),
        outcome != Err::<T, TaskError>(TaskError::QueueFull),
{
    assert(!queue.is_pending(sequence));
    assert forall|w: int| 0 <= w < queue.workers.len() implies (
    #[trigger] queue.workers[w]).task() != Some(sequence) by {}
    lemma_agreement_over_histories(queue, ops, sequence, None);
}

/// An accepted task is said to have been cancelled only if tasks were dropped by
/// shutting down.
pub proof fn law_cancellation_means_shutdown<F, T, C>(queue: QueueModel<F, T, C>, sequence: u64)
    requires
        queue.wf(),
        queue.slots.contains_key(sequence),
        queue.slots[sequence].value == Some(Err::<T, TaskError>(TaskError::Cancelled)),
    ensures
        queue.shutdown,
        queue.cancelled() > 0,
{
}

/// A task that panics is counted as failed and costs the queue nothing else:
/// the worker goes on, and tasks are taken in and given out as before.
pub proof fn law_panics_are_contained<F, T, C>(
    queue: QueueModel<F, T, C>,
    worker: int,
    started_at: Instant,
    finished_at: Instant,
    action: WorkerAction<F, T>,
)
    requires
        queue.wf(),
        0 <= worker < queue.workers.len(),
        queue.workers[worker] is Running,
        queue.answers(
            worker,
            WorkerEvent::Finished { returned: None, started_at, finished_at },
            action,
        ),
    ensures
        ({
            let reporting = queue.step(
                worker,
                WorkerEvent::Finished { returned: None, started_at, finished_at },
            );
            let delivered = reporting.step(worker, WorkerEvent::Reported);
            &&& action matches WorkerAction::Report { success: false, .. }
            &&& delivered.wf()
            &&& delivered.failed == queue.failed + 1
            &&& delivered.completed == queue.completed
            &&& delivered.workers == queue.workers.update(worker, Worker::Idle)
            &&& delivered.pending == queue.pending
            &&& delivered.refusal() == queue.refusal()
        }),
{
    let event = WorkerEvent::Finished { returned: None, started_at, finished_at };
    let reporting = queue.step(worker, event);
    lemma_worker_steps_keep_soundness(queue, worker, event);
    lemma_worker_steps_keep_soundness(reporting, worker, WorkerEvent::Reported);
    let delivered = reporting.step(worker, WorkerEvent::Reported);
    assert(delivered.workers =~= queue.workers.update(worker, Worker::Idle));
}

} // verus!
