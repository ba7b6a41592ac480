//! Orchestration of parallel agents on one machine: the agent bus, the
//! supervision of workers, the wait graph and the fan-out of tasks.

pub mod bus;
pub mod fan_out;
pub mod message;
pub mod supervisor;
pub mod wait_graph;
