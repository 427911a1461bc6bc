//! What the queue promises as a whole.

pub mod accounting;
pub mod admission;
pub mod closing;
pub mod effects;
pub mod outcomes;
pub mod scheduling;
