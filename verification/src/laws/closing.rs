//! How a queue comes to its end.

use crate::error::TaskError;
use crate::handle::{SlotRef, TaskHandle};
use crate::history::{
    law_histories_keep_soundness, law_operations_keep_soundness, lemma_settings_stay, rounds_made,
    Op,
};
use crate::laws::admission::law_closed_queue_stays_closed;
use crate::laws::scheduling::law_tasks_run_at_most_once;
use crate::model::QueueModel;
use crate::preservation::lemma_running_none;
use crate::priority::Priority;
use crate::queue::submission;
use crate::slot::TaskResultSlot;
use crate::worker::{Worker, WorkerEvent};
use vstd::prelude::*;

verus! {

/// The rounds that workers still make in a queue that takes in nothing more,
/// not counting those for waiting tasks.
pub open spec fn rounds_left<T>(workers: Seq<Worker<T>>) -> nat
    decreases workers.len(),
{
    if workers.len() == 0 {
        0
    } else {
        rounds_left(workers.drop_last()) + match workers.last() {
            Worker::Idle => 1nat,
            Worker::Running { .. } => 3nat,
            Worker::Reporting { .. } => 2nat,
            Worker::Stopped => 0nat,
        }
    }
}

/// Changing what one worker does changes the rounds left by those of that
/// worker alone.
proof fn lemma_rounds_left_update<T>(workers: Seq<Worker<T>>, worker: int, next: Worker<T>)
    requires
        0 <= worker < workers.len(),
    ensures
        rounds_left(workers.update(worker, next)) + rounds_left(seq![workers[worker]])
            == rounds_left(workers) + rounds_left(seq![next]),
    decreases workers.len(),
{
    let updated = workers.update(worker, next);
    assert(seq![workers[worker]].drop_last() =~= Seq::empty());
    assert(seq![next].drop_last() =~= Seq::empty());
    if worker == workers.len() - 1 {
        assert(updated.drop_last() =~= workers.drop_last());
        reveal_with_fuel(rounds_left, 2);
    } else {
        assert(updated.drop_last() =~= workers.drop_last().update(worker, next));
        lemma_rounds_left_update(workers.drop_last(), worker, next);
    }
}

/// No rounds are left exactly when all workers have left.
proof fn lemma_no_rounds_left<T>(workers: Seq<Worker<T>>)
    ensures
        rounds_left(workers) == 0 <==> forall|w: int|
            0 <= w < workers.len() ==> (#[trigger] workers[w]) is Stopped,
    decreases workers.len(),
{
    if workers.len() > 0 {
        let front = workers.drop_last();
        lemma_no_rounds_left(front);
        assert forall|w: int| 0 <= w < workers.len() && rounds_left(workers) == 0 implies (
        #[trigger] workers[w]) is Stopped by {
            if w < front.len() {
                assert(front[w] == workers[w]);
            }
        }
        if forall|w: int| 0 <= w < workers.len() ==> (#[trigger] workers[w]) is Stopped {
            assert forall|w: int| 0 <= w < front.len() implies (#[trigger] front[w]) is Stopped by {
                assert(front[w] == workers[w]);
            }
            assert(workers[workers.len() - 1] is Stopped);
        }
    }
}

/// The number of rounds after which all workers of a closed queue have left.
pub open spec fn rounds_to_rest<F, T, C>(queue: QueueModel<F, T, C>) -> nat {
    3 * queue.pending.len() + rounds_left(queue.workers)
}

/// Each round of a worker brings a queue that is draining or shut down one round
/// nearer to its end.
pub proof fn law_closed_queue_makes_progress<F, T, C>(
    queue: QueueModel<F, T, C>,
    worker: int,
    event: WorkerEvent<T>,
)
    requires
        queue.wf(),
        queue.draining || queue.shutdown,
        0 <= worker < queue.workers.len(),
        queue.workers[worker].expects(event),
    ensures
        rounds_to_rest(queue.step(worker, event)) == rounds_to_rest(queue) - 1,
{
    reveal_with_fuel(rounds_left, 2);
    lemma_rounds_left_update(queue.workers, worker, queue.step(worker, event).workers[worker]);
}

/// What is done to a queue that is draining or shut down, apart from the rounds
/// of its workers, adds no rounds, and takes some away only if it drops tasks.
proof fn lemma_only_rounds_count<F, T, C>(queue: QueueModel<F, T, C>, op: Op<F, T, C>)
    requires
        queue.wf(),
        queue.draining || queue.shutdown,
        queue.enables(op),
    ensures
        queue.apply(op).draining || queue.apply(op).shutdown,
        queue.apply(op).workers.len() == queue.workers.len(),
        op is Work ==> rounds_to_rest(queue.apply(op)) == rounds_to_rest(queue) - 1,
        !(op is Work || op is Shutdown) ==> rounds_to_rest(queue.apply(op)) == rounds_to_rest(
            queue,
        ),
        op is Shutdown ==> rounds_to_rest(queue.apply(op)) <= rounds_to_rest(queue),
{
    if let Op::Work { worker, event } = op {
        law_closed_queue_makes_progress(queue, worker, event);
    }
}

/// The workers of a queue that is draining or shut down come to rest, whatever
/// else is done to the queue meanwhile: they make a known number of rounds,
/// however they take turns, or fewer if waiting tasks are dropped by shutting
/// down. As long as rounds are left, a worker is there to make one; when none
/// are left, all workers have left and nothing waits or is executed.
pub proof fn law_closed_queue_comes_to_rest<F, T, C>(
    queue: QueueModel<F, T, C>,
    ops: Seq<Op<F, T, C>>,
)
    requires
        queue.wf(),
        queue.draining || queue.shutdown,
        queue.enables_all(ops),
    ensures
        rounds_to_rest(queue.apply_all(ops)) + rounds_made(ops) <= rounds_to_rest(queue),
        (forall|i: int| 0 <= i < ops.len() ==> !(#[trigger] ops[i] is Shutdown))
            ==> rounds_to_rest(queue.apply_all(ops)) + rounds_made(ops) == rounds_to_rest(queue),
        rounds_to_rest(queue.apply_all(ops)) > 0 ==> exists|w: int|
            0 <= w < queue.workers.len() && !((#[trigger] queue.apply_all(ops).workers[w])
                is Stopped),
        rounds_to_rest(queue.apply_all(ops)) == 0 ==> queue.apply_all(ops).drained() && forall|
            w: int,
        |
            0 <= w < queue.workers.len() ==> (#[trigger] queue.apply_all(ops).workers[w])
                is Stopped,
    decreases ops.len(),
{
    if ops.len() > 0 {
        let rest = ops.drop_first();
        law_operations_keep_soundness(queue, ops[0]);
        lemma_only_rounds_count(queue, ops[0]);
        law_closed_queue_comes_to_rest(queue.apply(ops[0]), rest);
        assert(forall|i: int| 0 <= i < rest.len() ==> rest[i] == ops[i + 1]);
    } else {
        lemma_no_rounds_left(queue.workers);
        if rounds_to_rest(queue) == 0 {
            lemma_running_none(queue.workers);
        } else if queue.pending.len() > 0 {
            assert(!(queue.workers[0] is Stopped));
        }
    }
}

/// A queue that drains without having been shut down runs every task that was
/// submitted: once nothing waits and nothing is executed, each one has returned
/// or panicked, and its outcome says which, if it is not just being reported.
/// Shutting down then changes no outcome.
pub proof fn law_draining_runs_every_task<F, T, C>(queue: QueueModel<F, T, C>)
    requires
        queue.wf(),
        !queue.shutdown,
        queue.drained(),
    ensures
        queue.total_submitted == queue.completed + queue.failed,
        forall|sequence: u64| #[trigger]
            queue.slots.contains_key(sequence) ==> match queue.slots[sequence].value {
                None => queue.is_held(sequence),
                Some(Ok(_)) => true,
                Some(Err(error)) => error == TaskError::Panicked,
            },
        queue.drain().shutdown,
        queue.drain().slots == queue.slots,
        queue.drain().cancelled() == 0,
{
    assert(queue.drain().slots =~= queue.slots);
}

/// Shutting down drops every waiting task and cancels it, but touches neither
/// the tasks that workers have nor the outcomes that are known.
pub proof fn law_shutdown_cancels_waiting_tasks<F, T, C>(
    queue: QueueModel<F, T, C>,
    sequence: u64,
)
    requires
        queue.wf(),
        queue.slots.contains_key(sequence),
    ensures
        queue.close().pending.len() == 0,
        queue.close().workers == queue.workers,
        queue.close().slots.contains_key(sequence),
        queue.is_pending(sequence) ==> queue.close().slots[sequence] == TaskResultSlot::<
            T,
        >::settled(Err(TaskError::Cancelled)),
        !queue.is_pending(sequence) ==> queue.close().slots[sequence] == queue.slots[sequence],
        queue.is_held(sequence) ==> queue.close().slots[sequence].value is None,
        queue.slots[sequence].value is Some ==> queue.close().slots[sequence]
            == queue.slots[sequence],
        queue.close().cancelled() == queue.cancelled() + queue.pending.len(),
{
    if queue.is_held(sequence) {
        let w = choose|w: int|
            0 <= w < queue.workers.len() && (#[trigger] queue.workers[w]).task() == Some(sequence);
        assert(queue.workers[w].task()->0 == sequence);
    }
}

/// After a shutdown a worker that asks for a task is told to leave, unless the
/// queue was dropped while it drained and has tasks left.
pub proof fn law_shutdown_stops_workers<F, T, C>(queue: QueueModel<F, T, C>)
    requires
        queue.wf(),
        queue.shutdown,
    ensures
        queue.pending.len() == 0 ==> queue.offer() is Exit,
        queue.pending.len() > 0 ==> queue.draining && queue.offer() is Run,
{
}

/// Shutting down twice is like shutting down once, and dropping a queue that was
/// shut down changes nothing.
pub proof fn law_shutdown_happens_once<F, T, C>(queue: QueueModel<F, T, C>)
    ensures
        queue.close().close() == queue.close(),
        queue.close().abandon() == queue.close(),
        queue.shutdown ==> queue.abandon() == queue,
{
    let closed = queue.close();
    assert(forall|s: u64| !closed.is_pending(s));
    assert(closed.close().slots =~= closed.slots);
}

/// Dropping a queue that was neither shut down nor draining shuts it down; one
/// that was draining keeps its waiting tasks.
pub proof fn law_dropping_spares_draining_tasks<F, T, C>(queue: QueueModel<F, T, C>)
    ensures
        !queue.shutdown && !queue.draining ==> queue.abandon() == queue.close(),
        queue.draining ==> queue.abandon().pending == queue.pending && queue.abandon().slots
            == queue.slots,
{
}

/// Once all workers have left, every task has an outcome: nobody waits for one
/// in vain.
pub proof fn law_nobody_waits_for_a_stopped_queue<F, T, C>(
    queue: QueueModel<F, T, C>,
    handle: TaskHandle<T>,
)
    requires
        queue.wf(),
        forall|w: int| 0 <= w < queue.workers.len() ==> (#[trigger] queue.workers[w]) is Stopped,
        handle.belongs_to(queue),
    ensures
        handle.outcome(queue) is Some,
{
    assert(queue.workers[0] is Stopped);
    match handle@ {
        SlotRef::Own(slot) => {},
        SlotRef::Shared(sequence) => {
            assert(!queue.is_pending(sequence));
            assert(!queue.is_held(sequence));
        },
    }
}

/// No task is left waiting by the workers: as long as one waits, none has left.
pub proof fn law_workers_outlast_waiting_tasks<F, T, C>(queue: QueueModel<F, T, C>, worker: int)
    requires
        queue.wf(),
        queue.pending.len() > 0,
        0 <= worker < queue.workers.len(),
    ensures
        !(queue.workers[worker] is Stopped),
{
}

/// A task that a worker has taken is not cancelled any more.
pub proof fn law_taken_tasks_are_never_cancelled<F, T, C>(
    queue: QueueModel<F, T, C>,
    ops: Seq<Op<F, T, C>>,
    sequence: u64,
)
    requires
        queue.wf(),
        queue.enables_all(ops),
        sequence < queue.next_sequence,
        !queue.is_pending(sequence),
        queue.slots.contains_key(sequence) ==> queue.slots[sequence].value != Some(
            Err::<T, TaskError>(TaskError::Cancelled),
        ),
    ensures
        queue.apply_all(ops).slots.contains_key(sequence) ==> queue.apply_all(
            ops,
        ).slots[sequence].value != Some(Err::<T, TaskError>(TaskError::Cancelled)),
    decreases ops.len(),
{
    if ops.len() > 0 {
        let next = queue.apply(ops[0]);
        law_operations_keep_soundness(queue, ops[0]);
        assert(!next.is_pending(sequence)) by {
            reveal_with_fuel(QueueModel::apply_all, 2);
            reveal_with_fuel(QueueModel::enables_all, 2);
            law_tasks_run_at_most_once(queue, seq![ops[0]], sequence);
        }
        law_taken_tasks_are_never_cancelled(next, ops.drop_first(), sequence);
    }
}

/// An outcome that is there does not change: whatever is done, it is that or its
/// slot was given up.
proof fn lemma_outcome_stays<F, T, C>(
    queue: QueueModel<F, T, C>,
    ops: Seq<Op<F, T, C>>,
    sequence: u64,
    outcome: Result<T, TaskError>,
)
    requires
        queue.wf(),
        queue.enables_all(ops),
        sequence < queue.next_sequence,
        queue.slots.contains_key(sequence) ==> queue.slots[sequence].value == Some(outcome),
    ensures
        queue.apply_all(ops).slots.contains_key(sequence) ==> queue.apply_all(
            ops,
        ).slots[sequence].value == Some(outcome),
    decreases ops.len(),
{
    if ops.len() > 0 {
        let op = ops[0];
        let next = queue.apply(op);
        law_operations_keep_soundness(queue, op);
        assert(next.slots.contains_key(sequence) ==> queue.slots.contains_key(sequence)
            && next.slots[sequence].value == Some(outcome)) by {
            if queue.slots.contains_key(sequence) {
                assert(!queue.is_pending(sequence) && !queue.is_held(sequence));
                if let Op::Work { worker, event } = op {
                    assert(queue.workers[worker].task() != Some(sequence));
                }
            }
        }
        lemma_outcome_stays(next, ops.drop_first(), sequence, outcome);
    }
}

/// A shutdown settles everything: once all workers have left, nothing waits or is
/// executed, and every task has its outcome. The tasks that were waiting at the
/// shutdown are cancelled, those that a worker had taken have returned or
/// panicked, and outcomes that were there are still the same. The queue refuses
/// whatever comes later, shutting it down again changes nothing, and its
/// settings are what they were.
pub proof fn law_shutdown_settles_everything<F, T, C>(
    queue: QueueModel<F, T, C>,
    ops: Seq<Op<F, T, C>>,
    sequence: u64,
)
    requires
        queue.wf(),
        queue.close().enables_all(ops),
        forall|w: int|
            0 <= w < queue.workers.len() ==> (#[trigger] queue.close().apply_all(ops).workers[w])
                is Stopped,
        queue.slots.contains_key(sequence),
    ensures
        queue.close().paused == queue.paused,
        queue.close().max_queued == queue.max_queued,
        ({
            let end = queue.close().apply_all(ops);
            &&& end.drained()
            &&& end.max_queued == queue.max_queued
            &&& end.refusal() == Some(TaskError::Cancelled)
            &&& end.close() == end
            &&& end.slots.contains_key(sequence) ==> match end.slots[sequence].value {
                None => false,
                Some(outcome) => {
                    &&& queue.is_pending(sequence) ==> outcome == Err::<T, TaskError>(
                        TaskError::Cancelled,
                    )
                    &&& queue.is_held(sequence) ==> match outcome {
                        Ok(_) => true,
                        Err(error) => error == TaskError::Panicked,
                    }
                    &&& queue.slots[sequence].value is Some ==> queue.slots[sequence].value == Some(
                        outcome,
                    )
                },
            }
        }),
{
    let closed = queue.close();
    let end = closed.apply_all(ops);
    queue.close_wf();
    law_histories_keep_soundness(closed, ops);
    lemma_settings_stay(closed, ops);
    law_closed_queue_stays_closed(closed, ops);
    law_shutdown_cancels_waiting_tasks(queue, sequence);
    assert(end.workers[0] is Stopped);
    lemma_running_none(end.workers);
    assert(forall|s: u64| !end.is_pending(s));
    assert(end.close() =~= end);
    if queue.is_held(sequence) {
        law_taken_tasks_are_never_cancelled(closed, ops, sequence);
    } else {
        lemma_outcome_stays(closed, ops, sequence, closed.slots[sequence].value->0);
    }
    if end.slots.contains_key(sequence) {
        assert(!end.is_held(sequence));
    }
}

/// Once a queue was asked to drain, was shut down or was dropped, whatever is
/// submitted to it later is cancelled at once and comes back without having
/// run, and the queue is as if it had not been submitted.
pub proof fn law_closing_cancels_submissions<F, T, C>(
    queue: QueueModel<F, T, C>,
    closed: QueueModel<F, T, C>,
    ops: Seq<Op<F, T, C>>,
    priority: Priority,
    task: F,
    submitted: (TaskHandle<T>, Option<F>),
    after: QueueModel<F, T, C>,
    later: QueueModel<F, T, C>,
)
    requires
        closed == queue.drain() || closed == queue.close() || closed == queue.abandon(),
        submission(closed.apply_all(ops), priority, task, submitted, after),
    ensures
        submitted.1 == Some(task),
        submitted.0.belongs_to(later),
        submitted.0.outcome(later) == Some(Err::<T, TaskError>(TaskError::Cancelled)),
        after == closed.apply_all(ops),
        after.total_submitted == queue.total_submitted,
{
    law_closed_queue_stays_closed(closed, ops);
}

} // verus!
