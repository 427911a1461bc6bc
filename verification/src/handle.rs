//! Handles, by which the outcomes of submitted tasks are asked for.

use crate::error::TaskError;
use crate::model::QueueModel;
use crate::queue::TaskQueue;
use crate::slot::TaskResultSlot;
use vstd::prelude::*;

verus! {

/// Where a handle finds the outcome of its task.
pub enum SlotRef<T> {
    /// In a slot of its own: the task was refused.
    Own(TaskResultSlot<T>),
    /// In the slot that the queue keeps for the task with that number.
    Shared(u64),
}

/// A handle to a submitted task, used to retrieve the result.
pub struct TaskHandle<T> {
    inner: SlotRef<T>,
}

/// What comes of asking for the result of a task.
pub enum JoinStep<T> {
    /// The task has this result. The handle is used up.
    Done(Result<T, TaskError>),
    /// The task has no result yet. Ask again with the handle once some task has
    /// finished.
    Wait(TaskHandle<T>),
}

impl<T> View for TaskHandle<T> {
    type V = SlotRef<T>;

    closed spec fn view(&self) -> SlotRef<T> {
        self.inner
    }
}

impl<T> TaskHandle<T> {
    /// Whether the handle belongs to a task of the queue: to a refused one, or
    /// to one for which the queue keeps a slot.
    pub open spec fn belongs_to<F, C>(self, queue: QueueModel<F, T, C>) -> bool {
        match self@ {
            SlotRef::Own(slot) => slot.value is Some,
            SlotRef::Shared(sequence) => queue.slots.contains_key(sequence),
        }
    }

    /// The outcome of the task, if there is one yet.
    pub open spec fn outcome<F, C>(self, queue: QueueModel<F, T, C>) -> Option<
        Result<T, TaskError>,
    > {
        match self@ {
            SlotRef::Own(slot) => slot.value,
            SlotRef::Shared(sequence) => queue.slots[sequence].value,
        }
    }

    /// The queue once the handle is given up.
    pub open spec fn given_up<F, C>(self, queue: QueueModel<F, T, C>) -> QueueModel<F, T, C> {
        match self@ {
            SlotRef::Own(slot) => queue,
            SlotRef::Shared(sequence) => queue.release(sequence),
        }
    }

    /// The handle of a refused task, which has its outcome at once.
    pub(crate) fn refused(error: TaskError) -> (handle: Self)
        ensures
            handle@ == SlotRef::Own(TaskResultSlot::<T>::settled(Err(error))),
    {
        let mut slot = TaskResultSlot::new();
        slot.set(Err(error));
        TaskHandle { inner: SlotRef::Own(slot) }
    }

    /// The handle of an accepted task.
    pub(crate) fn accepted(sequence: u64) -> (handle: Self)
        ensures
            handle@ == SlotRef::<T>::Shared(sequence),
    {
        TaskHandle { inner: SlotRef::Shared(sequence) }
    }

    /// Checks whether the task has completed.
    pub fn is_done<F, C>(&self, queue: &TaskQueue<F, T, C>) -> (done: bool)
        requires
            self.belongs_to(queue@),
        ensures
            done == (self.outcome(queue@) is Some),
    {
        match &self.inner {
            SlotRef::Own(slot) => slot.is_set(),
            SlotRef::Shared(sequence) => queue.has_outcome(*sequence),
        }
    }

    /// Asks for the result of the task: the value that the task returned, or
    /// why there is none. A task that has not finished makes the caller wait.
    pub fn join<F, C>(self, queue: &mut TaskQueue<F, T, C>) -> (step: JoinStep<T>)
        requires
            old(queue).wf(),
            self.belongs_to(old(queue)@),
        ensures
            final(queue).wf(),
            match self.outcome(old(queue)@) {
                Some(result) => {
                    &&& step == JoinStep::Done(result)
                    &&& final(queue)@ == self.given_up(old(queue)@)
                },
                None => {
                    &&& step == JoinStep::Wait(self)
                    &&& final(queue)@ == old(queue)@
                },
            },
    {
        match self.inner {
            SlotRef::Own(slot) => match slot.value {
                Some(result) => JoinStep::Done(result),
                None => JoinStep::Wait(
                    TaskHandle { inner: SlotRef::Own(TaskResultSlot::new()) },
                ),
            },
            SlotRef::Shared(sequence) => match queue.take_outcome(sequence) {
                Some(result) => JoinStep::Done(result),
                None => JoinStep::Wait(TaskHandle { inner: SlotRef::Shared(sequence) }),
            },
        }
    }

    /// Gives the handle up without asking for the result. A result that the
    /// task has already comes back; one that it gets later is not kept.
    pub fn detach<F, C>(self, queue: &mut TaskQueue<F, T, C>) -> (unclaimed: Option<
        Result<T, TaskError>,
    >)
        requires
            old(queue).wf(),
            self.belongs_to(old(queue)@),
        ensures
            final(queue).wf(),
            unclaimed == self.outcome(old(queue)@),
            final(queue)@ == self.given_up(old(queue)@),
    {
        match self.inner {
            SlotRef::Own(slot) => slot.value,
            SlotRef::Shared(sequence) => queue.drop_slot(sequence),
        }
    }
}

} // verus!
