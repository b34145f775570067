//! The payloads of the broadcast node.

use crate::common::message::NodeId;
use std::collections::BTreeSet;
use vstd::prelude::*;

verus! {

/// What a `broadcast` carries: one value, or a batch of values.
#[derive(Debug, PartialEq)]
pub enum MessageValue {
    Single(i64),
    Batch(Vec<i64>),
}

/// A `MessageValue` as a value.
pub enum MessageValueModel {
    Single(i64),
    Batch(Seq<i64>),
}

impl DeepView for MessageValue {
    type V = MessageValueModel;

    open spec fn deep_view(&self) -> MessageValueModel {
        match self {
            MessageValue::Single(value) => MessageValueModel::Single(*value),
            MessageValue::Batch(values) => MessageValueModel::Batch(values@),
        }
    }
}

/// The payloads that a broadcast node reads and writes.
#[derive(Debug, PartialEq)]
pub enum BroadcastMessage {
    /// The neighbours that the harness proposes for each node.
    Topology { topology: Vec<(NodeId, Vec<NodeId>)> },
    /// The acknowledgement of a `Topology`.
    TopologyOk,
    /// One value or a batch of values to spread.
    Broadcast { message: MessageValue },
    /// The acknowledgement of a `Broadcast` of one value.
    BroadcastOk,
    /// The question for every value that the node knows.
    Read,
    /// The values that the node knows.
    ReadOk { messages: BTreeSet<i64> },
}

/// A `BroadcastMessage` as a value.
pub enum BroadcastModel {
    Topology { topology: Seq<(Seq<char>, Seq<Seq<char>>)> },
    TopologyOk,
    Broadcast { message: MessageValueModel },
    BroadcastOk,
    Read,
    ReadOk { messages: Set<i64> },
}

impl DeepView for BroadcastMessage {
    type V = BroadcastModel;

    open spec fn deep_view(&self) -> BroadcastModel {
        match self {
            BroadcastMessage::Topology { topology } => BroadcastModel::Topology {
                topology: topology.deep_view(),
            },
            BroadcastMessage::TopologyOk => BroadcastModel::TopologyOk,
            BroadcastMessage::Broadcast { message } => BroadcastModel::Broadcast {
                message: message.deep_view(),
            },
            BroadcastMessage::BroadcastOk => BroadcastModel::BroadcastOk,
            BroadcastMessage::Read => BroadcastModel::Read,
            BroadcastMessage::ReadOk { messages } => BroadcastModel::ReadOk { messages: messages@ },
        }
    }
}

} // verus!
