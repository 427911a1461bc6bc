//! Every operation keeps what holds of every state.

use crate::entry::{in_order, lemma_place_splits, place, QueueEntry};
use crate::model::{running, QueueModel};
use crate::priority::Priority;
use crate::worker::Worker;
use std::time::Instant;
use vstd::prelude::*;

verus! {

/// Changing what one worker does changes the number of executing workers by
/// that worker alone.
pub proof fn lemma_running_update<T>(workers: Seq<Worker<T>>, worker: int, next: Worker<T>)
    requires
        0 <= worker < workers.len(),
    ensures
        running(workers.update(worker, next)) == running(workers) - (if workers[worker] is Running {
            1int
        } else {
            0int
        }) + (if next is Running {
            1int
        } else {
            0int
        }),
    decreases workers.len(),
{
    let updated = workers.update(worker, next);
    if worker == workers.len() - 1 {
        assert(updated.drop_last() =~= workers.drop_last());
    } else {
        assert(updated.drop_last() =~= workers.drop_last().update(worker, next));
        lemma_running_update(workers.drop_last(), worker, next);
    }
}

/// No more workers execute a task than there are, and one that does is counted.
pub proof fn lemma_running_bounds<T>(workers: Seq<Worker<T>>)
    ensures
        running(workers) <= workers.len(),
        forall|w: int|
            0 <= w < workers.len() && (#[trigger] workers[w]) is Running ==> running(workers) > 0,
    decreases workers.len(),
{
    if workers.len() > 0 {
        let front = workers.drop_last();
        lemma_running_bounds(front);
        assert forall|w: int|
            0 <= w < workers.len() && (#[trigger] workers[w]) is Running implies running(workers)
            > 0 by {
            if w < front.len() {
                assert(front[w] == workers[w]);
            }
        }
    }
}

/// Without executing workers the number of them is zero.
pub proof fn lemma_running_none<T>(workers: Seq<Worker<T>>)
    requires
        forall|w: int| 0 <= w < workers.len() ==> !((#[trigger] workers[w]) is Running),
    ensures
        running(workers) == 0,
    decreases workers.len(),
{
    if workers.len() > 0 {
        let front = workers.drop_last();
        assert forall|w: int| 0 <= w < front.len() implies !((#[trigger] front[w]) is Running) by {
            assert(front[w] == workers[w]);
        }
        lemma_running_none(front);
        assert(!(workers[workers.len() - 1] is Running));
    }
}

/// An entry put at its place among entries in order leaves them in order, if
/// its number is new.
pub proof fn lemma_insert_keeps_order<F>(entries: Seq<QueueEntry<F>>, entry: QueueEntry<F>)
    requires
        in_order(entries),
        forall|i: int|
            0 <= i < entries.len() ==> (#[trigger] entries[i]).sequence != entry.sequence,
    ensures
        place(entries, entry) <= entries.len(),
        in_order(entries.insert(place(entries, entry) as int, entry)),
{
    lemma_place_splits(entries, entry);
    let at = place(entries, entry) as int;
    let inserted = entries.insert(at, entry);
    assert forall|i: int, j: int|
        #![trigger inserted[i], inserted[j]]
        0 <= i < j < inserted.len() implies inserted[i].runs_before(inserted[j]) by {
        if i < at {
            assert(inserted[i] == entries[i]);
        } else if i > at {
            assert(inserted[i] == entries[i - 1]);
        }
        if j < at {
            assert(inserted[j] == entries[j]);
        } else if j > at {
            assert(inserted[j] == entries[j - 1]);
        }
    }
}

impl<F, T, C> QueueModel<F, T, C> {
    /// A new queue is in order.
    pub proof fn initial_wf(concurrency: nat)
        requires
            concurrency > 0,
        ensures
            Self::initial(concurrency).wf(),
    {
        let model = Self::initial(concurrency);
        lemma_running_none(model.workers);
    }

    /// Limiting an empty queue keeps it in order.
    pub proof fn limited_wf(self, max_queued: usize)
        requires
            self.wf(),
            self.pending.len() == 0,
        ensures
            self.limited(max_queued).wf(),
    {
        let next = self.limited(max_queued);
        assert(forall|s: u64| self.is_pending(s) == next.is_pending(s));
        assert(forall|s: u64| self.is_held(s) == next.is_held(s));
    }

    /// Accepting a task keeps the queue in order.
    pub proof fn accept_wf(self, priority: Priority, task: F, enqueued_at: Instant)
        requires
            self.wf(),
            self.refusal() is None,
            self.next_sequence < u64::MAX,
        ensures
            self.accept(priority, task, enqueued_at).wf(),
    {
        let entry = self.entry(priority, task, enqueued_at);
        let next = self.accept(priority, task, enqueued_at);
        lemma_insert_keeps_order(self.pending, entry);
        let at = place(self.pending, entry) as int;
        assert(next.pending.len() == self.pending.len() + 1);
        assert forall|i: int| 0 <= i < next.pending.len() implies #[trigger] next.pending[i]
            == if i < at {
            self.pending[i]
        } else if i == at {
            entry
        } else {
            self.pending[i - 1]
        } by {}
        assert forall|s: u64| #[trigger] next.is_pending(s) == (self.is_pending(s) || s
            == entry.sequence) by {
            if self.is_pending(s) {
                let i = choose|i: int|
                    0 <= i < self.pending.len() && (#[trigger] self.pending[i]).sequence == s;
                if i < at {
                    assert(next.pending[i].sequence == s);
                } else {
                    assert(next.pending[i + 1].sequence == s);
                }
            }
            if s == entry.sequence {
                assert(next.pending[at].sequence == s);
            }
            if next.is_pending(s) {
                let i = choose|i: int|
                    0 <= i < next.pending.len() && (#[trigger] next.pending[i]).sequence == s;
                if i < at {
                    assert(self.pending[i].sequence == s);
                } else if i > at {
                    assert(self.pending[i - 1].sequence == s);
                }
            }
        }
        assert(forall|s: u64| #[trigger] next.is_held(s) == self.is_held(s));
        assert(next.tasks_ok());
        assert(next.slots_ok());
    }

    /// Pausing and resuming keep the queue in order.
    pub proof fn set_paused_wf(self, paused: bool)
        requires
            self.wf(),
        ensures
            self.set_paused(paused).wf(),
    {
        let next = self.set_paused(paused);
        assert(forall|s: u64| self.is_pending(s) == next.is_pending(s));
        assert(forall|s: u64| self.is_held(s) == next.is_held(s));
    }

    /// Registering a callback keeps the queue in order.
    pub proof fn set_callback_wf(self, callback: C)
        requires
            self.wf(),
        ensures
            self.set_callback(callback).wf(),
    {
        let next = self.set_callback(callback);
        assert(forall|s: u64| self.is_pending(s) == next.is_pending(s));
        assert(forall|s: u64| self.is_held(s) == next.is_held(s));
    }

    /// Beginning to drain keeps the queue in order.
    pub proof fn begin_drain_wf(self)
        requires
            self.wf(),
        ensures
            self.begin_drain().wf(),
    {
        let next = self.begin_drain();
        assert(forall|s: u64| self.is_pending(s) == next.is_pending(s));
        assert(forall|s: u64| self.is_held(s) == next.is_held(s));
    }

    /// When one worker changes, the tasks of the others stay with them.
    pub proof fn held_after_update(self, worker: int, next: Worker<T>, after: Self)
        requires
            self.tasks_ok(),
            0 <= worker < self.workers.len(),
            after.workers == self.workers.update(worker, next),
        ensures
            forall|s: u64| #[trigger]
                after.is_held(s) <==> next.task() == Some(s) || (self.is_held(s)
                    && self.workers[worker].task() != Some(s)),
    {
        assert forall|s: u64| #[trigger]
            after.is_held(s) <==> next.task() == Some(s) || (self.is_held(s)
                && self.workers[worker].task() != Some(s)) by {
            if after.is_held(s) {
                let w = choose|w: int|
                    0 <= w < after.workers.len() && (#[trigger] after.workers[w]).task() == Some(s);
                if w != worker {
                    assert(self.workers[w].task() == Some(s));
                    if w < worker {
                        assert(self.workers[w].task() != self.workers[worker].task());
                    } else if self.workers[worker].task() == Some(s) {
                        assert(self.workers[worker].task() != self.workers[w].task());
                    }
                }
            }
            if next.task() == Some(s) {
                assert(after.workers[worker].task() == Some(s));
            }
            if self.is_held(s) && self.workers[worker].task() != Some(s) {
                let w = choose|w: int|
                    0 <= w < self.workers.len() && (#[trigger] self.workers[w]).task() == Some(s);
                assert(after.workers[w].task() == Some(s));
            }
        }
    }

    /// Giving a task to an idle worker keeps the queue in order.
    pub proof fn dispatch_wf(self, worker: int)
        requires
            self.wf(),
            self.pending.len() > 0,
            0 <= worker < self.workers.len(),
            self.workers[worker] is Idle,
        ensures
            self.dispatch(worker).wf(),
    {
        let next = self.dispatch(worker);
        let first = self.pending[0].sequence;
        let busy = next.workers[worker];
        self.held_after_update(worker, busy, next);
        lemma_running_update(self.workers, worker, busy);
        assert forall|i: int| 0 <= i < next.pending.len() implies #[trigger] next.pending[i]
            == self.pending[i + 1] by {}
        assert forall|s: u64| #[trigger] next.is_pending(s) <==> self.is_pending(s) && s
            != first by {
            if next.is_pending(s) {
                let i = choose|i: int|
                    0 <= i < next.pending.len() && (#[trigger] next.pending[i]).sequence == s;
                assert(self.pending[i + 1].sequence == s);
                assert(self.pending[0].sequence != self.pending[i + 1].sequence);
            }
            if self.is_pending(s) && s != first {
                let i = choose|i: int|
                    0 <= i < self.pending.len() && (#[trigger] self.pending[i]).sequence == s;
                assert(next.pending[i - 1].sequence == s);
            }
        }
        assert(self.is_pending(first));
        assert(next.tasks_ok());
        assert(next.slots_ok());
        assert(next.closing_ok());
    }

    /// Sending an idle worker home keeps the queue in order, if the queue
    /// sends workers home.
    pub proof fn dismiss_wf(self, worker: int)
        requires
            self.wf(),
            self.dismisses(),
            0 <= worker < self.workers.len(),
            self.workers[worker] is Idle,
        ensures
            self.dismiss(worker).wf(),
    {
        let next = self.dismiss(worker);
        self.held_after_update(worker, Worker::<T>::Stopped, next);
        lemma_running_update(self.workers, worker, Worker::<T>::Stopped);
        assert(forall|s: u64| self.is_pending(s) == next.is_pending(s));
        assert(next.tasks_ok());
    }

    /// Counting an executed task keeps the queue in order.
    pub proof fn finish_wf(self, worker: int, returned: Option<T>, latency: nat)
        requires
            self.wf(),
            0 <= worker < self.workers.len(),
            self.workers[worker] is Running,
        ensures
            self.finish(worker, returned, latency).wf(),
    {
        let next = self.finish(worker, returned, latency);
        self.held_after_update(worker, next.workers[worker], next);
        lemma_running_update(self.workers, worker, next.workers[worker]);
        lemma_running_bounds(self.workers);
        assert(forall|s: u64| self.is_pending(s) == next.is_pending(s));
        assert(self.is_held(self.workers[worker].task()->0));
        assert(next.tasks_ok());
        assert(next.slots_ok());
        assert(next.closing_ok());
    }

    /// Handing over an outcome keeps the queue in order.
    pub proof fn deliver_wf(self, worker: int)
        requires
            self.wf(),
            0 <= worker < self.workers.len(),
            self.workers[worker] is Reporting,
        ensures
            self.deliver(worker).wf(),
    {
        let next = self.deliver(worker);
        self.held_after_update(worker, Worker::<T>::Idle, next);
        lemma_running_update(self.workers, worker, Worker::<T>::Idle);
        assert(forall|s: u64| self.is_pending(s) == next.is_pending(s));
        assert(next.tasks_ok());
        assert(next.slots_ok());
        assert(next.closing_ok());
    }

    /// Dropping the waiting tasks keeps the queue in order.
    pub proof fn close_wf(self)
        requires
            self.wf(),
        ensures
            self.close().wf(),
    {
        let next = self.close();
        assert(forall|s: u64| !next.is_pending(s));
        assert(forall|s: u64| self.is_held(s) == next.is_held(s));
        assert(next.tasks_ok());
        assert(next.slots_ok()) by {
            assert forall|s: u64| #[trigger] next.slots.contains_key(s) && self.is_pending(
                s,
            ) implies !next.is_held(s) by {
                if self.is_held(s) {
                    let w = choose|w: int|
                        0 <= w < self.workers.len() && (#[trigger] self.workers[w]).task() == Some(
                            s,
                        );
                }
            }
        }
        assert(next.closing_ok()) by {
            if next.cancelled() == 0 {
                assert(self.pending.len() == 0);
                assert(next.slots =~= self.slots);
            }
        }
    }

    /// Dropping the queue keeps it in order.
    pub proof fn abandon_wf(self)
        requires
            self.wf(),
        ensures
            self.abandon().wf(),
    {
        if self.shutdown {
        } else if self.draining {
            let next = self.abandon();
            assert(forall|s: u64| self.is_pending(s) == next.is_pending(s));
            assert(forall|s: u64| self.is_held(s) == next.is_held(s));
        } else {
            self.close_wf();
        }
    }

    /// Giving up a slot keeps the queue in order.
    pub proof fn release_wf(self, sequence: u64)
        requires
            self.wf(),
        ensures
            self.release(sequence).wf(),
    {
        let next = self.release(sequence);
        assert(forall|s: u64| self.is_pending(s) == next.is_pending(s));
        assert(forall|s: u64| self.is_held(s) == next.is_held(s));
    }
}

} // verus!
