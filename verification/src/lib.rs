//! A task-processing library with one task format shared by a native,
//! thread-backed pool and a browser pool of Web Workers.

pub mod decimal;
pub mod native;
pub mod task;
pub mod web;

pub use decimal::push_decimal;
pub use native::{run_tasks_parallel, NativeWorkerPool};
pub use web::{schedule_batch, PoolError, ReplyOutcome, WorkerResult};
pub use task::{process_task, TaskInput, TaskOutput};
