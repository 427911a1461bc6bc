//! A task queue with priorities, bounded concurrency, pausing, draining and
//! shutdown, as a verified state machine.

pub mod clock;
pub mod entry;
pub mod error;
pub mod handle;
pub mod history;
pub mod laws;
pub mod model;
pub mod preservation;
pub mod priority;
pub mod queue;
pub mod slot;
pub mod stats;
pub mod worker;

pub use error::TaskError;
pub use handle::{JoinStep, TaskHandle};
pub use priority::Priority;
pub use queue::{DrainStep, TaskQueue};
pub use stats::TaskQueueStats;
pub use worker::{worker_loop, WorkerAction, WorkerEvent};
