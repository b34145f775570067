//! Node and message identifiers.

pub mod init;
pub mod message;

use crate::common::order::compare_names;
use crate::common::order::name_lt;
use crate::common::order::Precedence;
use std::cmp::Ordering;
use vstd::prelude::*;
use vstd::std_specs::cmp::PartialEqSpecImpl;
use vstd::std_specs::cmp::PartialOrdSpecImpl;
use vstd::std_specs::convert::FromSpecImpl;
use vstd::string::StrSliceExecFns;

verus! {

/// The name of a node. A name that starts with the letter `c` belongs to a
/// client, any other name to a server. The view is the name itself.
/// Identifiers are equal when their names are, and stand in the order of
/// their names.
#[derive(Debug)]
pub enum NodeId {
    Server(String),
    Client(String),
}

/// Whether a name is that of a client.
pub open spec fn is_client_name(name: Seq<char>) -> bool {
    name.len() > 0 && name[0] == 'c'
}

impl View for NodeId {
    type V = Seq<char>;

    open spec fn view(&self) -> Seq<char> {
        match self {
            NodeId::Server(name) => name@,
            NodeId::Client(name) => name@,
        }
    }
}

impl DeepView for NodeId {
    type V = Seq<char>;

    open spec fn deep_view(&self) -> Seq<char> {
        self@
    }
}

impl NodeId {
    /// The tag agrees with the first character of the name.
    pub open spec fn wf(&self) -> bool {
        (self is Client) == is_client_name(self@)
    }

    /// The name as a string.
    fn name(&self) -> (name: &String)
        ensures
            name@ == self@,
    {
        match self {
            NodeId::Server(name) => name,
            NodeId::Client(name) => name,
        }
    }

    /// The name as text.
    pub fn as_str(&self) -> (name: &str)
        ensures
            name@ == self@,
    {
        match self {
            NodeId::Server(name) => name.as_str(),
            NodeId::Client(name) => name.as_str(),
        }
    }

    /// An owned copy of the name.
    pub fn to_string(&self) -> (name: String)
        ensures
            name@ == self@,
    {
        self.as_str().to_owned()
    }

    /// Whether the node is a client, by its name.
    pub fn is_client(&self) -> (r: bool)
        ensures
            r == is_client_name(self@),
    {
        let name = self.as_str();
        !name.is_empty() && name.get_char(0) == 'c'
    }
}

impl Clone for NodeId {
    fn clone(&self) -> (r: Self)
        ensures
            r == *self,
    {
        match self {
            NodeId::Server(name) => NodeId::Server(name.clone()),
            NodeId::Client(name) => NodeId::Client(name.clone()),
        }
    }
}

impl PartialEq for NodeId {
    fn eq(&self, other: &Self) -> (r: bool) {
        *self.name() == *other.name()
    }
}

impl Eq for NodeId {}

impl PartialEqSpecImpl for NodeId {
    open spec fn obeys_eq_spec() -> bool {
        true
    }

    open spec fn eq_spec(&self, other: &Self) -> bool {
        self@ == other@
    }
}

impl PartialOrd for NodeId {
    fn partial_cmp(&self, other: &Self) -> (r: Option<Ordering>) {
        match compare_names(self.as_str(), other.as_str()) {
            Precedence::Before => Some(Ordering::Less),
            Precedence::Same => Some(Ordering::Equal),
            Precedence::After => Some(Ordering::Greater),
        }
    }
}

impl PartialOrdSpecImpl for NodeId {
    open spec fn obeys_partial_cmp_spec() -> bool {
        true
    }

    open spec fn partial_cmp_spec(&self, other: &Self) -> Option<Ordering> {
        if name_lt(self@, other@) {
            Some(Ordering::Less)
        } else if self@ == other@ {
            Some(Ordering::Equal)
        } else {
            Some(Ordering::Greater)
        }
    }
}

/// The identifier of the given name, tagged by the first character of the
/// name.
impl From<&str> for NodeId {
    fn from(value: &str) -> (r: Self)
        ensures
            r@ == value@,
            r.wf(),
    {
        if !value.is_empty() && value.get_char(0) == 'c' {
            NodeId::Client(value.to_owned())
        } else {
            NodeId::Server(value.to_owned())
        }
    }
}

/// What `from` returns is stated at `from` itself, over the view: no
/// specification function can make the string that the result holds.
impl FromSpecImpl<&str> for NodeId {
    open spec fn obeys_from_spec() -> bool {
        false
    }

    open spec fn from_spec(value: &str) -> Self {
        arbitrary()
    }
}

/// The number of a message. Each sender numbers its own messages.
#[derive(Clone, Copy, Debug, PartialEq, Eq, Structural)]
pub struct MessageId(pub u64);

impl DeepView for MessageId {
    type V = MessageId;

    open spec fn deep_view(&self) -> MessageId {
        *self
    }
}

impl MessageId {
    /// The next number.
    pub fn inc(&self) -> (next: MessageId)
        requires
            self.0 < u64::MAX,
        ensures
            next.0 == self.0 + 1,
    {
        MessageId(self.0 + 1)
    }
}

} // verus!
