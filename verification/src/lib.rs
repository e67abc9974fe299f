//! A dynamic task-graph executor.
//!
//! A run starts from a queue of seed tasks. Each task is either a `Main`
//! task, which runs on the driver's own thread with exclusive access to a
//! shared mutable context, or a `Background` task, which never touches the
//! context. A finished task either fails, ending the whole run, or yields a
//! list of continuation tasks that are appended to the tail of the queue.
//! The run ends successfully once no work remains anywhere.

pub mod control;
pub mod driver;
pub mod scenario;
pub mod semantics;
pub mod task;
