//! Scheduling.
pub mod scheduler;
pub mod thread;
