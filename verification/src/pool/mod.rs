//! Choosing the worker of a pool that runs the next task.
pub mod scheduler;

pub use scheduler::{Scheduler, Strategy};
