//! A message broker for real-time clients: a registry of live connections,
//! the routing of each message to one or all of them, and the per-connection
//! reader and writer decisions that feed and drain it.

pub mod frame;
pub mod queue;
pub mod registry;
pub mod broker;
pub mod buffer;
pub mod reader;
pub mod writer;
pub mod laws;
