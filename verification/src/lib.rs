//! An I/O completion queue: operations are submitted once, the system
//! completes them on its own time, and each completion is taken from the
//! queue as one event that gives back what the operation owned.
//!
//! The library decides; it makes no system call itself. Every function
//! that depends on the system takes the system's answers as plain values
//! and says in its contract what they mean.

pub mod error;
pub mod event;
pub mod handle;
pub mod lifecycle;
pub mod net;
pub mod queue;
pub mod sys;

pub use crate::queue::Custom;
pub use crate::queue::Event;
pub use crate::queue::Queue;
