//! Real time compute focused async executor: its verified core.
//!
//! - [`threads`]: the thread allocation helpers and the machine's core counts.
//! - [`creation`]: the checks a yard makes on its allocations before it starts.
//! - [`error`]: the creation error and its message.
//! - [`scheduler`]: every scheduling decision of the yard: run queues by
//!   priority, per-worker queues for thread-local jobs, wake-ups, the count of
//!   jobs in flight, the idle and death signals.
//! - [`queue`] and [`table`]: the priority queues and the job table the
//!   scheduler keeps its jobs in.
//! - [`task`]: the storage of a job's future with its completion flag.

pub mod creation;
pub mod error;
pub mod queue;
pub mod scheduler;
pub mod table;
pub mod task;
pub mod threads;

