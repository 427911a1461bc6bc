//! Why a task produced no result.

use vstd::prelude::*;

verus! {

/// Error returned when a task fails to produce a result.
#[derive(Debug, Clone, Copy, PartialEq, Eq, Structural)]
pub enum TaskError {
    /// The task panicked during execution.
    Panicked,
    /// The task was cancelled because the queue shut down before it could run.
    Cancelled,
    /// The task was rejected because the queue is at capacity.
    QueueFull,
}

impl TaskError {
    /// The text that describes the error to a reader.
    pub open spec fn text(self) -> Seq<char> {
        match self {
            TaskError::Panicked => "task panicked"@,
            TaskError::Cancelled => "task cancelled"@,
            TaskError::QueueFull => "task rejected: queue is full"@,
        }
    }

    /// Describes the error to a reader.
    pub fn to_string(&self) -> (text: String)
        ensures
            text@ == self.text(),
    {
        match self {
            TaskError::Panicked => "task panicked".to_owned(),
            TaskError::Cancelled => "task cancelled".to_owned(),
            TaskError::QueueFull => "task rejected: queue is full".to_owned(),
        }
    }
}

} // verus!
