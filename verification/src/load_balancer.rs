//! Load balancing for multi-agent systems.

pub mod error;
pub mod strategy;
pub mod coordinator;
pub mod registry;
pub mod laws;
