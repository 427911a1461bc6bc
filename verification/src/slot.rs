//! Where the outcome of a task is kept until somebody asks for it.

use crate::error::TaskError;
use vstd::prelude::*;

verus! {

/// Holds the outcome of one task: nothing until the task has an outcome, then
/// the value it returned or the reason why there is none.
pub struct TaskResultSlot<T> {
    /// The outcome, if there is one yet.
    pub value: Option<Result<T, TaskError>>,
}

impl<T> TaskResultSlot<T> {
    /// The slot of a task that has no outcome yet.
    pub open spec fn open_slot() -> Self {
        TaskResultSlot { value: None }
    }

    /// The slot of a task with the given outcome.
    pub open spec fn settled(value: Result<T, TaskError>) -> Self {
        TaskResultSlot { value: Some(value) }
    }

    /// A slot without an outcome.
    pub fn new() -> (slot: Self)
        ensures
            slot == Self::open_slot(),
    {
        TaskResultSlot { value: None }
    }

    /// Records an outcome, in place of any earlier one.
    pub fn set(&mut self, value: Result<T, TaskError>)
        ensures
            *final(self) == Self::settled(value),
    {
        self.value = Some(value);
    }

    /// Records that the task was dropped without running, unless it has an
    /// outcome already.
    pub fn cancel(&mut self)
        ensures
            *final(self) == if old(self).value is None {
                Self::settled(Err(TaskError::Cancelled))
            } else {
                *old(self)
            },
    {
        if self.value.is_none() {
            self.value = Some(Err(TaskError::Cancelled));
        }
    }

    /// Whether there is an outcome.
    pub fn is_set(&self) -> (set: bool)
        ensures
            set == (self.value is Some),
    {
        self.value.is_some()
    }
}

/// The outcome of a task that ran: what it returned, or that it panicked.
pub open spec fn outcome_of<T>(returned: Option<T>) -> Result<T, TaskError> {
    match returned {
        Some(value) => Ok(value),
        None => Err(TaskError::Panicked),
    }
}

/// Turns what came of running a task into its outcome. A task that panicked
/// returned nothing.
pub fn outcome<T>(returned: Option<T>) -> (result: Result<T, TaskError>)
    ensures
        result == outcome_of(returned),
{
    match returned {
        Some(value) => Ok(value),
        None => Err(TaskError::Panicked),
    }
}

} // verus!
