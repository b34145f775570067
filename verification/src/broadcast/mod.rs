//! The node that spreads values through the cluster.

pub mod actor;
pub mod laws;
pub mod message;
pub mod overlay;
pub mod wire;
