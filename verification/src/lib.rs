//! A discrete-event simulation kernel for distributed algorithms.
//!
//! The kernel owns a virtual clock, a priority queue of events and the
//! liveness state of every process. Applications react to delivered
//! operations and schedule new events through a per-process handle.

pub mod asynchrony;
pub mod churn;
pub mod conf;
pub mod event;
pub mod kernel;
pub mod network;
pub mod process;
pub mod queue;
pub mod rng;
pub mod utils;
