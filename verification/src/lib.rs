//! Parallel execution of blocks for an Optimism-style chain, with the Block-STM
//! algorithm: what a worker, an execution, a validation and a block do next, and
//! how the results of a block are made of what the workers recorded.
//!
//! Threads, storage and the virtual machine are the caller's. The library says
//! what it waits for, and goes on from the answer.

pub mod account;
pub mod gas;
pub mod laws;
pub mod lazy;
pub mod mv_memory;
pub mod op_executor;
pub mod op_provider;
pub mod primitives;
pub mod result;
pub mod scheduler;
pub mod sequential;
pub mod transaction;
