//! The node that sends back what it is sent.

pub mod actor;
pub mod message;
