//! What a node knows about itself, and the numbers it gives its messages.

use crate::common::message::message::MessageAddress;
use crate::common::message::MessageId;
use crate::common::message::NodeId;
use vstd::prelude::*;

verus! {

/// The identity of the running node: its name, the names of all nodes of the
/// cluster, and the number that its next outbound message will carry.
#[derive(Debug)]
pub struct ThisNode {
    node_id: NodeId,
    node_ids: Vec<NodeId>,
    outbound_message_id: MessageId,
}

impl ThisNode {
    /// The node's own name.
    pub closed spec fn spec_node_id(&self) -> &NodeId {
        &self.node_id
    }

    /// The names of all nodes of the cluster, as the handshake gave them.
    pub closed spec fn spec_node_ids(&self) -> &Vec<NodeId> {
        &self.node_ids
    }

    /// The number that the next outbound message will carry.
    pub closed spec fn next_message_id(&self) -> u64 {
        self.outbound_message_id.0
    }

    /// The node's own name.
    #[verifier::when_used_as_spec(spec_node_id)]
    pub fn node_id(&self) -> (id: &NodeId)
        ensures
            id == self.node_id(),
    {
        &self.node_id
    }

    /// The names of all nodes of the cluster, as the handshake gave them.
    #[verifier::when_used_as_spec(spec_node_ids)]
    pub fn node_ids(&self) -> (ids: &Vec<NodeId>)
        ensures
            ids == self.node_ids(),
    {
        &self.node_ids
    }

    /// `after` is `before` once it has addressed one message to `dest`, and
    /// `address` is what it put on that message: the node as sender, `dest`
    /// as receiver, and the number that was next.
    pub open spec fn allocated(
        before: ThisNode,
        after: ThisNode,
        dest: NodeId,
        address: MessageAddress,
    ) -> bool {
        &&& before.next_message_id() < u64::MAX
        &&& address.src == before.node_id()
        &&& address.dest == dest
        &&& address.msg_id.0 == before.next_message_id()
        &&& after.next_message_id() == before.next_message_id() + 1
        &&& after.node_id() == before.node_id()
        &&& after.node_ids() == before.node_ids()
    }

    /// The identity that the handshake announced. Numbers start at 1.
    pub fn new(node_id: NodeId, node_ids: Vec<NodeId>) -> (node: ThisNode)
        ensures
            node.node_id() == node_id,
            node.node_ids() == node_ids,
            node.next_message_id() == 1,
    {
        ThisNode { node_id, node_ids, outbound_message_id: MessageId(1) }
    }

    /// How many more messages the node can number.
    pub fn remaining_message_ids(&self) -> (left: u64)
        ensures
            left == u64::MAX - self.next_message_id(),
    {
        u64::MAX - self.outbound_message_id.0
    }

    /// The address of a new message to `dest`. Takes the next number and
    /// moves the counter on by one.
    pub fn new_destination_address(&mut self, dest: NodeId) -> (address: MessageAddress)
        requires
            old(self).next_message_id() < u64::MAX,
        ensures
            Self::allocated(*old(self), *final(self), dest, address),
    {
        let msg_id = self.outbound_message_id;
        self.outbound_message_id = msg_id.inc();
        MessageAddress { src: self.node_id.clone(), dest, msg_id }
    }
}

/// The numbers that a node hands out grow by one each time: of any two
/// messages that it addresses, the later one carries the greater number, so
/// no number is used twice.
pub proof fn lemma_message_ids_increase(
    states: Seq<ThisNode>,
    dests: Seq<NodeId>,
    addresses: Seq<MessageAddress>,
    i: int,
    j: int,
)
    requires
        states.len() == addresses.len() + 1,
        dests.len() == addresses.len(),
        forall|k: int|
            0 <= k < addresses.len() ==> ThisNode::allocated(
                states[k],
                #[trigger] states[k + 1],
                dests[k],
                addresses[k],
            ),
        0 <= i < j < addresses.len(),
    ensures
        addresses[i].msg_id.0 < addresses[j].msg_id.0,
        addresses[j].msg_id.0 == addresses[i].msg_id.0 + (j - i),
    decreases j - i,
{
    assert(ThisNode::allocated(states[j - 1], states[j - 1 + 1], dests[j - 1], addresses[j - 1]));
    assert(ThisNode::allocated(states[j], states[j + 1], dests[j], addresses[j]));
    if i < j - 1 {
        lemma_message_ids_increase(states, dests, addresses, i, j - 1);
    }
}

} // verus!
