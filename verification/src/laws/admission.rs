//! Which tasks a queue takes in.

use crate::error::TaskError;
use crate::handle::TaskHandle;
use crate::history::{law_histories_keep_soundness, lemma_settings_stay, Op};
use crate::model::QueueModel;
use crate::priority::Priority;
use crate::queue::submission;
use vstd::prelude::*;

verus! {

/// A queue made with a limit never has more waiting tasks than that, and while
/// it is open it refuses a task exactly when it has that many.
pub proof fn law_capacity_is_never_exceeded<F, T, C>(
    concurrency: nat,
    max_queued: usize,
    ops: Seq<Op<F, T, C>>,
)
    requires
        concurrency > 0,
        QueueModel::<F, T, C>::initial(concurrency).limited(max_queued).enables_all(ops),
    ensures
        ({
            let queue = QueueModel::<F, T, C>::initial(concurrency).limited(max_queued).apply_all(
                ops,
            );
            &&& queue.pending.len() <= max_queued
            &&& !queue.draining && !queue.shutdown ==> (queue.refusal() == Some(
                TaskError::QueueFull,
            ) <==> queue.pending.len() == max_queued)
        }),
{
    let start = QueueModel::<F, T, C>::initial(concurrency);
    QueueModel::<F, T, C>::initial_wf(concurrency);
    start.limited_wf(max_queued);
    law_histories_keep_soundness(start.limited(max_queued), ops);
    lemma_settings_stay(start.limited(max_queued), ops);
}

/// A queue made without a limit refuses a task only when it is draining or shut
/// down.
pub proof fn law_unlimited_queue_is_never_full<F, T, C>(
    concurrency: nat,
    ops: Seq<Op<F, T, C>>,
)
    requires
        concurrency > 0,
        QueueModel::<F, T, C>::initial(concurrency).enables_all(ops),
    ensures
        ({
            let queue = QueueModel::<F, T, C>::initial(concurrency).apply_all(ops);
            queue.refusal() is Some <==> queue.draining || queue.shutdown
        }),
{
    lemma_settings_stay(QueueModel::<F, T, C>::initial(concurrency), ops);
}

/// A refused task is answered at once and for good: its handle has the error
/// whatever becomes of the queue, and the queue is as if nothing was submitted.
pub proof fn law_refusal_is_answered_at_once<F, T, C>(
    before: QueueModel<F, T, C>,
    priority: Priority,
    task: F,
    submitted: (TaskHandle<T>, Option<F>),
    after: QueueModel<F, T, C>,
    later: QueueModel<F, T, C>,
)
    requires
        submission(before, priority, task, submitted, after),
        before.refusal() is Some,
    ensures
        after == before,
        submitted.1 == Some(task),
        submitted.0.belongs_to(later),
        submitted.0.outcome(later) == Some(Err::<T, TaskError>(before.refusal()->0)),
        submitted.0.given_up(later) == later,
{
}

/// A queue that is draining or shut down stays so, and cancels whatever is
/// submitted to it.
pub proof fn law_closed_queue_stays_closed<F, T, C>(
    queue: QueueModel<F, T, C>,
    ops: Seq<Op<F, T, C>>,
)
    requires
        queue.draining || queue.shutdown,
    ensures
        queue.draining ==> queue.apply_all(ops).draining,
        queue.shutdown ==> queue.apply_all(ops).shutdown,
        queue.apply_all(ops).refusal() == Some(TaskError::Cancelled),
        queue.apply_all(ops).total_submitted == queue.total_submitted,
    decreases ops.len(),
{
    if ops.len() > 0 {
        law_closed_queue_stays_closed(queue.apply(ops[0]), ops.drop_first());
    }
}

/// Draining, shutting down and dropping close a queue.
pub proof fn law_closing_closes<F, T, C>(queue: QueueModel<F, T, C>)
    ensures
        queue.drain().draining,
        queue.close().shutdown,
        queue.abandon().shutdown,
{
}

/// Pausing does not keep tasks from being submitted.
pub proof fn law_pause_refuses_nothing<F, T, C>(queue: QueueModel<F, T, C>, paused: bool)
    ensures
        queue.set_paused(paused).refusal() == queue.refusal(),
{
}

} // verus!
