//! Parallel execution engine for chunked encoding: work distribution over a
//! bounded pool of workers, CPU-affinity planning, the per-chunk pass/retry
//! state machine and the checkpoint store that records verified chunks.

pub mod chunk;
pub mod settings;
pub mod affinity;
pub mod pipeline;
pub mod checkpoint;
pub mod queue;
pub mod worker;
pub mod pool;
pub mod report;
pub mod broker;
