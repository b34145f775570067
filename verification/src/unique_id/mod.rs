//! The node that hands out identifiers, none of them twice.

pub mod actor;
pub mod message;
