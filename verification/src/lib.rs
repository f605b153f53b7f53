//! An in-process task-orchestration core: tasks with typed input slots are
//! routed through FIFO queues and a pending-task table until every input has
//! arrived, then handed to workers for execution.
pub mod log;
pub mod pool;
pub mod queue;
pub mod task;
