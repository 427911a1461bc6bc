//! What the queue keeps count of.

use crate::clock::{duration_nanos, instant_nanos, nanos_between};
use crate::entry::lemma_place_splits;
use crate::history::{law_operations_keep_soundness, leave_worker_alone, tasks_finished, Op};
use crate::laws::outcomes::law_workers_keep_their_task;
use crate::model::QueueModel;
use crate::preservation::lemma_running_bounds;
use crate::stats::at_most;
use crate::worker::{WorkerAction, WorkerEvent};
use std::time::Instant;
use vstd::prelude::*;

verus! {

/// No task is lost: every submitted task waits, is executed, has returned, has
/// panicked or was dropped, and tasks are dropped only by shutting the queue
/// down or dropping it.
pub proof fn law_tasks_are_accounted_for<F, T, C>(queue: QueueModel<F, T, C>, op: Op<F, T, C>)
    requires
        queue.wf(),
        queue.enables(op),
    ensures
        queue.cancelled() >= 0,
        !queue.shutdown ==> queue.cancelled() == 0,
        queue.apply(op).cancelled() == queue.cancelled() + match op {
            Op::Shutdown => queue.pending.len() as int,
            Op::Abandon => if queue.shutdown || queue.draining {
                0int
            } else {
                queue.pending.len() as int
            },
            _ => 0int,
        },
{
    match op {
        Op::Submit { priority, task, enqueued_at } => {
            lemma_place_splits(queue.pending, queue.entry(priority, task, enqueued_at));
        },
        Op::Work { worker, event } => {
            lemma_running_bounds(queue.workers);
        },
        _ => {},
    }
}

/// The numbers of submitted, returned and panicked tasks never go down, and
/// every finished task counts in the latency.
pub proof fn law_counters_only_grow<F, T, C>(queue: QueueModel<F, T, C>, op: Op<F, T, C>)
    requires
        queue.wf(),
        queue.enables(op),
    ensures
        queue.apply(op).total_submitted >= queue.total_submitted,
        queue.apply(op).completed >= queue.completed,
        queue.apply(op).failed >= queue.failed,
        queue.apply(op).total_nanos >= queue.total_nanos,
        queue.apply(op).samples == queue.apply(op).completed + queue.apply(op).failed,
{
    law_operations_keep_soundness(queue, op);
}

/// Of the callbacks registered one after another only the last one counts.
pub proof fn law_last_callback_wins<F, T, C>(queue: QueueModel<F, T, C>, first: C, second: C)
    ensures
        queue.set_callback(first).set_callback(second) == queue.set_callback(second),
        queue.set_callback(second).callback == Some(second),
{
}

/// The time reported of a task is that of its execution alone, and the time added
/// to the latencies is that from its submission to its end: the time it waited
/// together with the time it was executed, provided that the clock does not go
/// back.
pub proof fn law_latency_covers_waiting_and_execution<F, T, C>(
    queue: QueueModel<F, T, C>,
    worker: int,
    meanwhile: Seq<Op<F, T, C>>,
    returned: Option<T>,
    started_at: Instant,
    finished_at: Instant,
    action: WorkerAction<F, T>,
)
    requires
        queue.wf(),
        queue.dispatches(),
        0 <= worker < queue.workers.len(),
        queue.workers[worker] is Idle,
        queue.step(worker, WorkerEvent::Ready).enables_all(meanwhile),
        leave_worker_alone(meanwhile, worker),
        queue.step(worker, WorkerEvent::Ready).apply_all(meanwhile).answers(
            worker,
            WorkerEvent::Finished { returned, started_at, finished_at },
            action,
        ),
        instant_nanos(queue.pending[0].enqueued_at) <= instant_nanos(started_at),
        instant_nanos(started_at) <= instant_nanos(finished_at),
    ensures
        ({
            let enqueued_at = queue.pending[0].enqueued_at;
            let latency = nanos_between(enqueued_at, finished_at);
            let executing = queue.step(worker, WorkerEvent::Ready).apply_all(meanwhile);
            let counted = executing.step(
                worker,
                WorkerEvent::Finished { returned, started_at, finished_at },
            );
            &&& action matches WorkerAction::Report { elapsed, .. } && duration_nanos(elapsed)
                == nanos_between(started_at, finished_at) && latency == nanos_between(
                enqueued_at,
                started_at,
            ) + duration_nanos(elapsed)
            &&& counted.total_nanos == at_most(executing.total_nanos + latency, u128::MAX as nat)
            &&& counted.samples == executing.samples + 1
        }),
{
    law_workers_keep_their_task(queue.step(worker, WorkerEvent::Ready), meanwhile, worker);
}

/// A task is counted as returned or as panicked exactly when a worker comes back
/// from one that did, and in no other operation. The same holds of the number of
/// latencies, and a submitted task is counted exactly when an open queue with
/// room takes it in.
pub proof fn law_counters_count_what_happened<F, T, C>(
    queue: QueueModel<F, T, C>,
    ops: Seq<Op<F, T, C>>,
)
    ensures
        queue.apply_all(ops).completed == queue.completed + tasks_finished(ops, true),
        queue.apply_all(ops).failed == queue.failed + tasks_finished(ops, false),
        queue.apply_all(ops).samples == queue.samples + tasks_finished(ops, true) + tasks_finished(
            ops,
            false,
        ),
        ops.len() == 1 ==> queue.apply_all(ops).total_submitted == queue.total_submitted + if ops[0]
            is Submit && !queue.draining && !queue.shutdown && (queue.max_queued matches Some(limit)
            ==> queue.pending.len() < limit) {
            1int
        } else {
            0int
        },
    decreases ops.len(),
{
    if ops.len() > 0 {
        law_counters_count_what_happened(queue.apply(ops[0]), ops.drop_first());
        if ops.len() == 1 {
            assert(queue.apply_all(ops) == queue.apply(ops[0])) by {
                reveal_with_fuel(QueueModel::apply_all, 2);
            }
        }
    }
}

} // verus!
