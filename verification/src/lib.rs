//! An in-process orchestrator for asynchronous tasks.
//!
//! Producers hand tasks to a [`TaskHandler`]; on every tick the handler starts
//! all pending tasks on a tokio local task set and forgets the handles of the
//! tasks that have finished. What each operation does is stated over
//! [`HandlerView`], the mathematical model of a handler; what holds across
//! operations is proved in [`laws`].
//!
//! [`window`] holds what the client computes from the answers of the window
//! system.

pub mod laws;
pub mod runtime;
pub mod task;
pub mod task_handler;
pub mod window;

pub use runtime::Execution;
pub use task::{Task, TaskMeta, TaskMetaView};
pub use task_handler::{HandlerView, TaskHandler, TICK_MILLIS};
