//! What a worker does with a connection that it was handed.
//!
//! Threads and the queue of connections are the caller's. This module holds
//! the decisions of a session: how each frame is answered, when the
//! session ends, and when a ping is due.

pub mod worker;

pub use worker::{handle_frame, ping_due, Action, Workers};
