//! Nodes of a gossip cluster. A node reads envelopes, answers them and sets
//! timers; the broadcast node spreads values to every node of the cluster.
//!
//! - `common` holds what every node shares: identifiers and envelopes, the
//!   timers, the steps of the event loop, and the envelopes as lines of
//!   JSON.
//! - `broadcast` holds the broadcast engine, the ring it hands values on
//!   along, and what holds of it at every step.
//! - `echo` and `unique_id` hold two small nodes.
//!
//! Nothing here reads a clock or a stream. Time is a count of milliseconds
//! that the caller takes from a clock that never runs backwards, and lines
//! are strings that the caller reads and writes.

pub mod broadcast;
pub mod common;
pub mod echo;
pub mod unique_id;
