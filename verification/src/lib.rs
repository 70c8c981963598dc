//! A runtime that gathers trace data of an async executor and its tasks, and
//! the event types in which that data travels.
pub mod transport;
pub mod task_cache;
pub mod start_stop;
pub mod marker;
pub mod span;
pub mod hooks;
pub mod laws;
pub mod history;
