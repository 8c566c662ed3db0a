//! Process supervisor for one OS-level container: lifecycle state machine,
//! process-tree registry, serial execution queues, control-stream codec, and
//! the network data model the control protocol refers to.

pub mod codec;
pub mod hosts;
pub mod network;
pub mod paths;
pub mod process;
pub mod registry;
pub mod runner;
pub mod serial;
pub mod textfmt;
