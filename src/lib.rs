//! Task lifecycle core for host objects that run asynchronous work on a
//! background executor and receive the results back on the host thread.

pub mod executor;
pub mod laws;
pub mod registry;
pub mod task;

