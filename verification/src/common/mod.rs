//! The runtime that every node shares.

pub mod actor;
pub mod ascending;
pub mod codec;
pub mod error;
pub mod heap;
pub mod json;
pub mod message;
pub mod order;
pub mod record;
pub mod runner;
pub mod text;
pub mod this_node;
pub mod timer;
