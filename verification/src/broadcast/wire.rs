//! The payloads of the broadcast node as members of a body.

use crate::broadcast::message::BroadcastMessage;
use crate::broadcast::message::BroadcastModel;
use crate::broadcast::message::MessageValue;
use crate::broadcast::message::MessageValueModel;
use crate::common::ascending::ascending;
use crate::common::ascending::ascending_values;
use crate::common::ascending::lemma_ascending;
use crate::common::ascending::set_of;
use crate::common::codec::all_tagged;
use crate::common::codec::envelope_from_json;
use crate::common::codec::envelope_json;
use crate::common::codec::find_list;
use crate::common::codec::find_object;
use crate::common::codec::find_text;
use crate::common::codec::lemma_envelope_reads_back;
use crate::common::codec::lemma_texts;
use crate::common::codec::list_member;
use crate::common::codec::names_from_json;
use crate::common::codec::names_to_json;
use crate::common::codec::object_member;
use crate::common::codec::same_text;
use crate::common::codec::text_member;
use crate::common::codec::text_pair;
use crate::common::codec::texts;
use crate::common::codec::texts_from;
use crate::common::codec::Payload;
use crate::common::json::find_member;
use crate::common::json::lemma_list_model;
use crate::common::json::lemma_member_absent;
use crate::common::json::lemma_member_at;
use crate::common::json::lemma_object_model;
use crate::common::json::member;
use crate::common::json::named;
use crate::common::json::Json;
use crate::common::json::JsonModel;
use crate::common::message::message::Envelope;
use crate::common::message::NodeId;
use vstd::prelude::*;
use vstd::string::StringExecFns;

verus! {

/// Numbers as JSON numbers.
pub open spec fn ints(values: Seq<i64>) -> Seq<JsonModel> {
    Seq::new(values.len(), |i: int| JsonModel::Int(values[i] as int))
}

/// Whether a JSON value is a whole number that a value to spread can be.
pub open spec fn is_value(item: JsonModel) -> bool {
    item matches JsonModel::Int(n) && i64::MIN <= n <= i64::MAX
}

/// The numbers of an array of JSON numbers. `None` where an item is no
/// whole number in range.
pub open spec fn ints_from(items: Seq<JsonModel>) -> Option<Seq<i64>> {
    if forall|i: int| 0 <= i < items.len() ==> is_value(#[trigger] items[i]) {
        Some(Seq::new(items.len(), |i: int| items[i]->Int_0 as i64))
    } else {
        None
    }
}

/// What `ints` wrote, `ints_from` reads.
pub proof fn lemma_ints(values: Seq<i64>)
    ensures
        ints_from(ints(values)) == Some(values),
{
    assert forall|i: int| 0 <= i < ints(values).len() implies is_value(#[trigger] ints(values)[i]) by {}
    assert(ints_from(ints(values))->Some_0 =~= values);
}

/// A node with its neighbours.
pub open spec fn neighbours(name: Seq<char>, names: Seq<Seq<char>>) -> (Seq<char>, Seq<Seq<char>>) {
    (name, names)
}

/// A topology as the members of an object: for each node an array of the
/// names of its neighbours.
pub open spec fn topology_json(topology: Seq<(Seq<char>, Seq<Seq<char>>)>) -> Seq<
    (Seq<char>, JsonModel),
> {
    Seq::new(
        topology.len(),
        |i: int| named(topology[i].0, JsonModel::List(texts(topology[i].1))),
    )
}

/// Whether a JSON value is an array of strings.
pub open spec fn is_names(item: JsonModel) -> bool {
    item matches JsonModel::List(items) && texts_from(items) is Some
}

/// The topology that the members of an object stand for. `None` where a
/// member is no array of strings.
pub open spec fn topology_from(entries: Seq<(Seq<char>, JsonModel)>) -> Option<
    Seq<(Seq<char>, Seq<Seq<char>>)>,
> {
    if forall|i: int| 0 <= i < entries.len() ==> is_names((#[trigger] entries[i]).1) {
        Some(
            Seq::new(
                entries.len(),
                |i: int| neighbours(entries[i].0, texts_from(entries[i].1->List_0)->Some_0),
            ),
        )
    } else {
        None
    }
}

/// What `topology_json` wrote, `topology_from` reads.
pub proof fn lemma_topology(topology: Seq<(Seq<char>, Seq<Seq<char>>)>)
    ensures
        topology_from(topology_json(topology)) == Some(topology),
{
    let entries = topology_json(topology);
    assert forall|i: int| 0 <= i < entries.len() implies is_names((#[trigger] entries[i]).1) by {
        lemma_texts(topology[i].1);
    }
    assert forall|i: int| 0 <= i < entries.len() implies topology_from(entries)->Some_0[i]
        == topology[i] by {
        lemma_texts(topology[i].1);
    }
    assert(topology_from(entries)->Some_0 =~= topology);
}

/// The value under `message`: one whole number in range, or an array of
/// them.
pub open spec fn value_from(members: Seq<(Seq<char>, JsonModel)>) -> Option<MessageValueModel> {
    match member(members, "message"@) {
        Some(JsonModel::Int(n)) => if i64::MIN <= n <= i64::MAX {
            Some(MessageValueModel::Single(n as i64))
        } else {
            None
        },
        Some(JsonModel::List(items)) => match ints_from(items) {
            Some(values) => Some(MessageValueModel::Batch(values)),
            None => None,
        },
        _ => None,
    }
}

/// Numbers as an array of JSON numbers.
pub fn values_to_json(values: &Vec<i64>) -> (tree: Json)
    ensures
        tree.deep_view() == JsonModel::List(ints(values@)),
{
    let mut items: Vec<Json> = Vec::new();
    let mut i: usize = 0;
    while i < values.len()
        invariant
            i <= values@.len(),
            items@.len() == i,
            forall|k: int|
                0 <= k < i ==> (#[trigger] items@[k]).deep_view() == JsonModel::Int(values@[k] as int),
        decreases values@.len() - i,
    {
        items.push(Json::Int(values[i] as i128));
        i += 1;
    }
    proof {
        lemma_list_model(items);
        assert(items.deep_view() =~= ints(values@));
    }
    Json::List(items)
}

/// The numbers of an array of JSON numbers. `None` where an item is no
/// whole number in range.
pub fn values_from_json(items: &Vec<Json>) -> (values: Option<Vec<i64>>)
    ensures
        match values {
            Some(values) => ints_from(items.deep_view()) == Some(values@),
            None => ints_from(items.deep_view()) is None,
        },
{
    let mut values: Vec<i64> = Vec::new();
    let mut i: usize = 0;
    while i < items.len()
        invariant
            i <= items@.len(),
            values@.len() == i,
            forall|k: int| 0 <= k < i ==> is_value(#[trigger] items.deep_view()[k]),
            forall|k: int| 0 <= k < i ==> items.deep_view()[k]->Int_0 == #[trigger] values@[k],
        decreases items@.len() - i,
    {
        match &items[i] {
            Json::Int(n) => {
                if *n < i64::MIN as i128 || *n > i64::MAX as i128 {
                    assert(!is_value(items.deep_view()[i as int]));
                    return None;
                }
                values.push(*n as i64);
            },
            _ => {
                assert(!is_value(items.deep_view()[i as int]));
                return None;
            },
        }
        i += 1;
    }
    proof {
        assert(values@ =~= ints_from(items.deep_view())->Some_0);
    }
    Some(values)
}

/// A topology as an object.
pub fn topology_to_json(topology: &Vec<(NodeId, Vec<NodeId>)>) -> (tree: Json)
    ensures
        tree.deep_view() == JsonModel::Object(topology_json(topology.deep_view())),
{
    let mut entries: Vec<(String, Json)> = Vec::new();
    let mut i: usize = 0;
    while i < topology.len()
        invariant
            i <= topology@.len(),
            entries@.len() == i,
            forall|k: int|
                0 <= k < i ==> (#[trigger] entries@[k]).deep_view() == named(
                    topology@[k].0@,
                    JsonModel::List(texts(topology@[k].1.deep_view())),
                ),
        decreases topology@.len() - i,
    {
        entries.push((topology[i].0.to_string(), names_to_json(&topology[i].1)));
        i += 1;
    }
    proof {
        lemma_object_model(entries);
        assert(entries.deep_view() =~= topology_json(topology.deep_view()));
    }
    Json::Object(entries)
}

/// The topology that the members of an object stand for.
pub fn topology_from_json(entries: &Vec<(String, Json)>) -> (topology: Option<
    Vec<(NodeId, Vec<NodeId>)>,
>)
    ensures
        topology.deep_view() == topology_from(entries.deep_view()),
        topology matches Some(topology) ==> topology_tagged(topology@),
{
    let mut topology: Vec<(NodeId, Vec<NodeId>)> = Vec::new();
    let mut i: usize = 0;
    while i < entries.len()
        invariant
            i <= entries@.len(),
            topology@.len() == i,
            forall|k: int| 0 <= k < i ==> is_names((#[trigger] entries.deep_view()[k]).1),
            topology_tagged(topology@),
            forall|k: int|
                0 <= k < i ==> (#[trigger] topology@[k]).deep_view() == neighbours(
                    entries.deep_view()[k].0,
                    texts_from(entries.deep_view()[k].1->List_0)->Some_0,
                ),
        decreases entries@.len() - i,
    {
        match &entries[i].1 {
            Json::List(items) => {
                proof {
                    lemma_list_model(*items);
                }
                match names_from_json(items) {
                    Some(names) => {
                        topology.push((NodeId::from(entries[i].0.as_str()), names));
                    },
                    None => {
                        assert(!is_names(entries.deep_view()[i as int].1));
                        return None;
                    },
                }
            },
            _ => {
                assert(!is_names(entries.deep_view()[i as int].1));
                return None;
            },
        }
        i += 1;
    }
    proof {
        assert(topology.deep_view() =~= topology_from(entries.deep_view())->Some_0);
    }
    Some(topology)
}

/// Every node of the topology and every one of its neighbours carries the
/// tag that goes with its name.
pub open spec fn topology_tagged(topology: Seq<(NodeId, Vec<NodeId>)>) -> bool {
    forall|i: int|
        0 <= i < topology.len() ==> (#[trigger] topology[i]).0.wf() && all_tagged(topology[i].1@)
}

impl Payload for BroadcastMessage {
    open spec fn tagged(&self) -> bool {
        self matches BroadcastMessage::Topology { topology } ==> topology_tagged(topology@)
    }

    /// The values of a `read_ok` must be finitely many.
    open spec fn valid(model: BroadcastModel) -> bool {
        model matches BroadcastModel::ReadOk { messages } ==> messages.finite()
    }

    /// `topology` carries `topology`, an object with the neighbours of each
    /// node; `broadcast` carries `message`, a number or an array of numbers;
    /// `read_ok` carries `messages`, the values in ascending order; the
    /// others carry nothing.
    open spec fn members(model: BroadcastModel) -> Seq<(Seq<char>, JsonModel)> {
        match model {
            BroadcastModel::Topology { topology } => seq![
                named("type"@, JsonModel::Text("topology"@)),
                named("topology"@, JsonModel::Object(topology_json(topology))),
            ],
            BroadcastModel::TopologyOk => seq![named("type"@, JsonModel::Text("topology_ok"@))],
            BroadcastModel::Broadcast { message: MessageValueModel::Single(value) } => seq![
                named("type"@, JsonModel::Text("broadcast"@)),
                named("message"@, JsonModel::Int(value as int)),
            ],
            BroadcastModel::Broadcast { message: MessageValueModel::Batch(values) } => seq![
                named("type"@, JsonModel::Text("broadcast"@)),
                named("message"@, JsonModel::List(ints(values))),
            ],
            BroadcastModel::BroadcastOk => seq![named("type"@, JsonModel::Text("broadcast_ok"@))],
            BroadcastModel::Read => seq![named("type"@, JsonModel::Text("read"@))],
            BroadcastModel::ReadOk { messages } => seq![
                named("type"@, JsonModel::Text("read_ok"@)),
                named("messages"@, JsonModel::List(ints(ascending(messages)))),
            ],
        }
    }

    /// A `message` that is an array is read as a batch, whatever its
    /// length.
    open spec fn from_members(members: Seq<(Seq<char>, JsonModel)>) -> Option<BroadcastModel> {
        match text_member(members, "type"@) {
            Some(tag) => if tag == "topology"@ {
                match object_member(members, "topology"@) {
                    Some(entries) => match topology_from(entries) {
                        Some(topology) => Some(BroadcastModel::Topology { topology }),
                        None => None,
                    },
                    None => None,
                }
            } else if tag == "topology_ok"@ {
                Some(BroadcastModel::TopologyOk)
            } else if tag == "broadcast"@ {
                match value_from(members) {
                    Some(message) => Some(BroadcastModel::Broadcast { message }),
                    None => None,
                }
            } else if tag == "broadcast_ok"@ {
                Some(BroadcastModel::BroadcastOk)
            } else if tag == "read"@ {
                Some(BroadcastModel::Read)
            } else if tag == "read_ok"@ {
                match list_member(members, "messages"@) {
                    Some(items) => match ints_from(items) {
                        Some(values) => Some(BroadcastModel::ReadOk { messages: values.to_set() }),
                        None => None,
                    },
                    None => None,
                }
            } else {
                None
            },
            None => None,
        }
    }

    fn to_members(&self) -> (members: Vec<(String, Json)>) {
        let mut members: Vec<(String, Json)> = Vec::new();
        match self {
            BroadcastMessage::Topology { topology } => {
                members.push(text_pair("type", "topology"));
                members.push((String::from_str("topology"), topology_to_json(topology)));
            },
            BroadcastMessage::TopologyOk => {
                members.push(text_pair("type", "topology_ok"));
            },
            BroadcastMessage::Broadcast { message: MessageValue::Single(value) } => {
                members.push(text_pair("type", "broadcast"));
                members.push((String::from_str("message"), Json::Int(*value as i128)));
            },
            BroadcastMessage::Broadcast { message: MessageValue::Batch(values) } => {
                members.push(text_pair("type", "broadcast"));
                members.push((String::from_str("message"), values_to_json(values)));
            },
            BroadcastMessage::BroadcastOk => {
                members.push(text_pair("type", "broadcast_ok"));
            },
            BroadcastMessage::Read => {
                members.push(text_pair("type", "read"));
            },
            BroadcastMessage::ReadOk { messages } => {
                let values = ascending_values(messages);
                members.push(text_pair("type", "read_ok"));
                members.push((String::from_str("messages"), values_to_json(&values)));
            },
        }
        assert(members.deep_view() =~= Self::members(self.deep_view()));
        members
    }

    fn read_members(members: &Vec<(String, Json)>) -> (payload: Option<Self>) {
        let tag = match find_text(members, "type") {
            Some(tag) => tag,
            None => {
                return None;
            },
        };
        if same_text(tag.as_str(), "topology") {
            let entries = match find_object(members, "topology") {
                Some(entries) => entries,
                None => {
                    return None;
                },
            };
            match topology_from_json(entries) {
                Some(topology) => Some(BroadcastMessage::Topology { topology }),
                None => None,
            }
        } else if same_text(tag.as_str(), "topology_ok") {
            Some(BroadcastMessage::TopologyOk)
        } else if same_text(tag.as_str(), "broadcast") {
            match find_member(members, "message") {
                Some(Json::Int(n)) => {
                    if *n < i64::MIN as i128 || *n > i64::MAX as i128 {
                        None
                    } else {
                        Some(BroadcastMessage::Broadcast { message: MessageValue::Single(*n as i64) })
                    }
                },
                Some(Json::List(items)) => {
                    proof {
                        lemma_list_model(*items);
                    }
                    match values_from_json(items) {
                        Some(values) => Some(
                            BroadcastMessage::Broadcast { message: MessageValue::Batch(values) },
                        ),
                        None => None,
                    }
                },
                _ => None,
            }
        } else if same_text(tag.as_str(), "broadcast_ok") {
            Some(BroadcastMessage::BroadcastOk)
        } else if same_text(tag.as_str(), "read") {
            Some(BroadcastMessage::Read)
        } else if same_text(tag.as_str(), "read_ok") {
            let items = match find_list(members, "messages") {
                Some(items) => items,
                None => {
                    return None;
                },
            };
            match values_from_json(items) {
                Some(values) => Some(BroadcastMessage::ReadOk { messages: set_of(&values) }),
                None => None,
            }
        } else {
            None
        }
    }

    proof fn lemma_read_is_valid(members: Seq<(Seq<char>, JsonModel)>) {
        if Self::from_members(members) matches Some(BroadcastModel::ReadOk { messages }) {
            let items = list_member(members, "messages"@)->Some_0;
            vstd::seq_lib::seq_to_set_is_finite(ints_from(items)->Some_0);
        }
    }

    proof fn lemma_reads_back(model: BroadcastModel, number: (Seq<char>, JsonModel)) {
        reveal_strlit("msg_id");
        reveal_strlit("in_reply_to");
        reveal_strlit("type");
        reveal_strlit("topology");
        reveal_strlit("topology_ok");
        reveal_strlit("broadcast");
        reveal_strlit("broadcast_ok");
        reveal_strlit("read");
        reveal_strlit("read_ok");
        reveal_strlit("message");
        reveal_strlit("messages");
        let written = Self::members(model);
        let body = seq![number] + written;
        assert("type"@[1] == 'y' && "topology"@[1] == 'o' && "message"@[1] == 'e' && "messages"@[1]
            == 'e');
        assert("msg_id"@[1] == 's' && "in_reply_to"@[1] == 'n');
        assert("msg_id"@.len() == 6 && "message"@.len() == 7 && "messages"@.len() == 8);
        assert("topology"@.len() == 8 && "topology_ok"@.len() == 11 && "broadcast"@.len() == 9
            && "broadcast_ok"@.len() == 12 && "read"@.len() == 4 && "read_ok"@.len() == 7);
        lemma_member_at(body, "type"@, 1);
        lemma_member_absent(written, "msg_id"@);
        lemma_member_absent(written, "in_reply_to"@);
        match model {
            BroadcastModel::Topology { topology } => {
                lemma_member_at(body, "topology"@, 2);
                lemma_topology(topology);
            },
            BroadcastModel::Broadcast { message: MessageValueModel::Single(value) } => {
                lemma_member_at(body, "message"@, 2);
            },
            BroadcastModel::Broadcast { message: MessageValueModel::Batch(values) } => {
                lemma_member_at(body, "message"@, 2);
                lemma_ints(values);
            },
            BroadcastModel::ReadOk { messages } => {
                lemma_member_at(body, "messages"@, 2);
                lemma_ascending(messages);
                lemma_ints(ascending(messages));
            },
            _ => {},
        }
    }
}

/// A batch of one value does not collapse into a single value: the
/// envelope of a `broadcast` whose `message` is the batch of `v` alone, once
/// written as a JSON value, reads back as that envelope.
pub proof fn lemma_batch_of_one_stays_a_batch(envelope: Envelope<BroadcastModel>, v: i64)
    requires
        envelope.value() == (BroadcastModel::Broadcast {
            message: MessageValueModel::Batch(seq![v]),
        }),
    ensures
        envelope_from_json::<BroadcastMessage>(
            envelope_json(envelope, BroadcastMessage::members(envelope.value())),
        ) == Some(envelope),
        member(BroadcastMessage::members(envelope.value()), "message"@) == Some(
            JsonModel::List(seq![JsonModel::Int(v as int)]),
        ),
{
    reveal_strlit("type");
    reveal_strlit("message");
    lemma_envelope_reads_back::<BroadcastMessage>(envelope);
    let written = BroadcastMessage::members(envelope.value());
    assert("type"@[0] != "message"@[0]);
    lemma_member_at(written, "message"@, 1);
    assert(ints(seq![v]) =~= seq![JsonModel::Int(v as int)]);
}

} // verus!
