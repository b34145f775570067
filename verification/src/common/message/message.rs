//! The envelope that travels between nodes, and the addresses on it.

use crate::common::message::MessageId;
use crate::common::message::NodeId;
use vstd::prelude::*;

verus! {

/// Where a reply goes and which request it answers.
#[derive(Debug, PartialEq)]
pub struct ReplyAddress {
    pub src: NodeId,
    pub dest: NodeId,
    pub in_reply_to: MessageId,
}

/// Sender, receiver and number of a message.
#[derive(Debug, PartialEq)]
pub struct MessageAddress {
    pub src: NodeId,
    pub dest: NodeId,
    pub msg_id: MessageId,
}

impl MessageAddress {
    /// The address of the answer to a message with this address: sender and
    /// receiver change places, and the answer names the message's number.
    pub open spec fn reply_address(self) -> ReplyAddress {
        ReplyAddress { src: self.dest, dest: self.src, in_reply_to: self.msg_id }
    }

    /// Turns the address of a request into the address of its reply.
    pub fn to_reply_address(self) -> (reply: ReplyAddress)
        ensures
            reply == self.reply_address(),
    {
        ReplyAddress { src: self.dest, dest: self.src, in_reply_to: self.msg_id }
    }
}

/// What an envelope carries: a request with its own number, or a reply that
/// names the number of the request it answers. Never both.
#[derive(Debug, PartialEq)]
pub enum MessageBody<A> {
    Request { msg_id: MessageId, value: A },
    Reply { in_reply_to: MessageId, value: A },
}

/// An envelope: sender, receiver and body.
#[derive(Debug, PartialEq)]
pub struct Message<A> {
    pub src: NodeId,
    pub dest: NodeId,
    pub body: MessageBody<A>,
}

/// An envelope as a value: the names as text, the payload by its model.
pub struct Envelope<V> {
    pub src: Seq<char>,
    pub dest: Seq<char>,
    pub body: MessageBody<V>,
}

impl<V> Envelope<V> {
    /// The number on the envelope, whether it is its own or that of the
    /// request it answers.
    pub open spec fn id(self) -> MessageId {
        match self.body {
            MessageBody::Request { msg_id, .. } => msg_id,
            MessageBody::Reply { in_reply_to, .. } => in_reply_to,
        }
    }

    /// The payload.
    pub open spec fn value(self) -> V {
        match self.body {
            MessageBody::Request { value, .. } => value,
            MessageBody::Reply { value, .. } => value,
        }
    }

    /// The answer to this envelope that carries `value`: it goes from the
    /// receiver back to the sender and names the envelope's number.
    pub open spec fn answer<W>(self, value: W) -> Envelope<W> {
        Envelope {
            src: self.dest,
            dest: self.src,
            body: MessageBody::Reply { in_reply_to: self.id(), value },
        }
    }
}

impl<A: DeepView> DeepView for MessageBody<A> {
    type V = MessageBody<A::V>;

    open spec fn deep_view(&self) -> MessageBody<A::V> {
        match self {
            MessageBody::Request { msg_id, value } => MessageBody::Request {
                msg_id: *msg_id,
                value: value.deep_view(),
            },
            MessageBody::Reply { in_reply_to, value } => MessageBody::Reply {
                in_reply_to: *in_reply_to,
                value: value.deep_view(),
            },
        }
    }
}

impl<A: DeepView> DeepView for Message<A> {
    type V = Envelope<A::V>;

    open spec fn deep_view(&self) -> Envelope<A::V> {
        Envelope { src: self.src@, dest: self.dest@, body: self.body.deep_view() }
    }
}

impl<A> Message<A> {
    /// The request that `address` and `value` make up.
    pub open spec fn request(address: MessageAddress, value: A) -> Message<A> {
        Message {
            src: address.src,
            dest: address.dest,
            body: MessageBody::Request { msg_id: address.msg_id, value },
        }
    }

    /// The reply that `address` and `value` make up.
    pub open spec fn reply(address: ReplyAddress, value: A) -> Message<A> {
        Message {
            src: address.src,
            dest: address.dest,
            body: MessageBody::Reply { in_reply_to: address.in_reply_to, value },
        }
    }

    /// The number on the envelope, whether it is its own or that of the
    /// request it answers.
    pub open spec fn id(self) -> MessageId {
        match self.body {
            MessageBody::Request { msg_id, .. } => msg_id,
            MessageBody::Reply { in_reply_to, .. } => in_reply_to,
        }
    }

    /// The payload.
    pub open spec fn value(self) -> A {
        match self.body {
            MessageBody::Request { value, .. } => value,
            MessageBody::Reply { value, .. } => value,
        }
    }

    /// Sender, receiver and number of the envelope.
    pub open spec fn address_of(self) -> MessageAddress {
        MessageAddress { src: self.src, dest: self.dest, msg_id: self.id() }
    }

    /// Builds a request.
    pub fn new_request(address: MessageAddress, value: A) -> (message: Message<A>)
        ensures
            message == Self::request(address, value),
    {
        Message {
            src: address.src,
            dest: address.dest,
            body: MessageBody::Request { msg_id: address.msg_id, value },
        }
    }

    /// Builds a reply.
    pub fn new_reply(address: ReplyAddress, value: A) -> (message: Message<A>)
        ensures
            message == Self::reply(address, value),
    {
        Message {
            src: address.src,
            dest: address.dest,
            body: MessageBody::Reply { in_reply_to: address.in_reply_to, value },
        }
    }

    /// Takes the envelope apart into its payload and its address.
    pub fn body_and_address(self) -> (parts: (A, MessageAddress))
        ensures
            parts.0 == self.value(),
            parts.1 == self.address_of(),
    {
        let Message { src, dest, body } = self;
        let (msg_id, value) = match body {
            MessageBody::Request { msg_id, value } => (msg_id, value),
            MessageBody::Reply { in_reply_to, value } => (in_reply_to, value),
        };
        (value, MessageAddress { src, dest, msg_id })
    }

    /// A copy of the envelope's address.
    pub fn address(&self) -> (address: MessageAddress)
        ensures
            address == self.address_of(),
    {
        let msg_id = match &self.body {
            MessageBody::Request { msg_id, .. } => *msg_id,
            MessageBody::Reply { in_reply_to, .. } => *in_reply_to,
        };
        MessageAddress { src: self.src.clone(), dest: self.dest.clone(), msg_id }
    }
}

/// The reply to a request carries the request's number, and goes from the
/// request's receiver back to its sender.
pub proof fn lemma_reply_answers_request<A, B>(address: MessageAddress, asked: A, answer: B)
    ensures
        ({
            let request = Message::request(address, asked);
            let reply = Message::reply(request.address_of().reply_address(), answer);
            &&& reply.src == request.dest
            &&& reply.dest == request.src
            &&& reply.body == (MessageBody::Reply { in_reply_to: address.msg_id, value: answer })
        }),
{
}

} // verus!
