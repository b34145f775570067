//! Envelopes as JSON: an object with the members `src`, `dest` and `body`,
//! and in the body first the number (`msg_id` for a request, `in_reply_to`
//! for a reply), then `type`, then what the payload carries.

use crate::common::error::Error;
use crate::common::json::find_member;
use crate::common::json::lemma_list_model;
use crate::common::json::lemma_member_at;
use crate::common::json::lemma_object_model;
use crate::common::json::member;
use crate::common::json::named;
use crate::common::json::parse_line;
use crate::common::json::parsed_line;
use crate::common::json::render;
use crate::common::json::to_text;
use crate::common::json::Json;
use crate::common::json::JsonModel;
use crate::common::message::message::Envelope;
use crate::common::message::message::Message;
use crate::common::message::message::MessageBody;
use crate::common::message::MessageId;
use crate::common::message::NodeId;
use crate::common::order::compare_names;
use crate::common::order::Precedence;
use vstd::prelude::*;
use vstd::string::StringExecFns;

verus! {

/// The string that is the first member of the given name, if that member is
/// a string.
pub open spec fn text_member(members: Seq<(Seq<char>, JsonModel)>, name: Seq<char>) -> Option<
    Seq<char>,
> {
    match member(members, name) {
        Some(JsonModel::Text(text)) => Some(text),
        _ => None,
    }
}

/// The number that is the first member of the given name, if that member is
/// a whole number that a message can carry as its number.
pub open spec fn id_member(members: Seq<(Seq<char>, JsonModel)>, name: Seq<char>) -> Option<u64> {
    match member(members, name) {
        Some(JsonModel::Int(n)) => if 0 <= n <= u64::MAX {
            Some(n as u64)
        } else {
            None
        },
        _ => None,
    }
}

/// The members of the object that is the first member of the given name,
/// if that member is an object.
pub open spec fn object_member(members: Seq<(Seq<char>, JsonModel)>, name: Seq<char>) -> Option<
    Seq<(Seq<char>, JsonModel)>,
> {
    match member(members, name) {
        Some(JsonModel::Object(inner)) => Some(inner),
        _ => None,
    }
}

/// The items of the array that is the first member of the given name, if
/// that member is an array.
pub open spec fn list_member(members: Seq<(Seq<char>, JsonModel)>, name: Seq<char>) -> Option<
    Seq<JsonModel>,
> {
    match member(members, name) {
        Some(JsonModel::List(items)) => Some(items),
        _ => None,
    }
}

/// Strings as JSON strings.
pub open spec fn texts(names: Seq<Seq<char>>) -> Seq<JsonModel> {
    Seq::new(names.len(), |i: int| JsonModel::Text(names[i]))
}

/// The strings of an array of JSON strings. `None` where an item is no
/// string.
pub open spec fn texts_from(items: Seq<JsonModel>) -> Option<Seq<Seq<char>>> {
    if forall|i: int| 0 <= i < items.len() ==> #[trigger] items[i] is Text {
        Some(Seq::new(items.len(), |i: int| items[i]->Text_0))
    } else {
        None
    }
}

/// What `texts` wrote, `texts_from` reads.
pub proof fn lemma_texts(names: Seq<Seq<char>>)
    ensures
        texts_from(texts(names)) == Some(names),
{
    assert(texts_from(texts(names))->Some_0 =~= names);
}

/// The first member of the given name, if it is a string.
pub fn find_text<'a>(members: &'a Vec<(String, Json)>, name: &str) -> (found: Option<&'a String>)
    ensures
        found.deep_view() == text_member(members.deep_view(), name@),
{
    match find_member(members, name) {
        Some(Json::Text(text)) => Some(text),
        _ => None,
    }
}

/// The first member of the given name, if it is the number of a message.
pub fn find_id(members: &Vec<(String, Json)>, name: &str) -> (found: Option<u64>)
    ensures
        found == id_member(members.deep_view(), name@),
{
    match find_member(members, name) {
        Some(Json::Int(n)) => {
            if 0 <= *n && *n <= u64::MAX as i128 {
                Some(*n as u64)
            } else {
                None
            }
        },
        _ => None,
    }
}

/// The first member of the given name, if it is an object.
pub fn find_object<'a>(members: &'a Vec<(String, Json)>, name: &str) -> (found: Option<
    &'a Vec<(String, Json)>,
>)
    ensures
        found.deep_view() == object_member(members.deep_view(), name@),
{
    match find_member(members, name) {
        Some(Json::Object(inner)) => {
            proof {
                lemma_object_model(*inner);
            }
            Some(inner)
        },
        _ => None,
    }
}

/// The first member of the given name, if it is an array.
pub fn find_list<'a>(members: &'a Vec<(String, Json)>, name: &str) -> (found: Option<&'a Vec<Json>>)
    ensures
        found.deep_view() == list_member(members.deep_view(), name@),
{
    match find_member(members, name) {
        Some(Json::List(items)) => {
            proof {
                lemma_list_model(*items);
            }
            Some(items)
        },
        _ => None,
    }
}

/// Whether two texts are the same.
pub fn same_text(a: &str, b: &str) -> (same: bool)
    ensures
        same == (a@ == b@),
{
    compare_names(a, b) == Precedence::Same
}

/// The member `name` with the string `text` as its value.
pub fn text_pair(name: &str, text: &str) -> (pair: (String, Json))
    ensures
        pair.deep_view() == named(name@, JsonModel::Text(text@)),
{
    (String::from_str(name), Json::Text(String::from_str(text)))
}

/// The names of the nodes as an array of JSON strings.
pub fn names_to_json(names: &Vec<NodeId>) -> (tree: Json)
    ensures
        tree.deep_view() == JsonModel::List(texts(names.deep_view())),
{
    let mut items: Vec<Json> = Vec::new();
    let mut i: usize = 0;
    while i < names.len()
        invariant
            i <= names@.len(),
            items@.len() == i,
            forall|k: int| 0 <= k < i ==> (#[trigger] items@[k]).deep_view() == JsonModel::Text(names@[k]@),
        decreases names@.len() - i,
    {
        items.push(Json::Text(names[i].to_string()));
        i += 1;
    }
    proof {
        lemma_list_model(items);
        assert(items.deep_view() =~= texts(names.deep_view()));
    }
    Json::List(items)
}

/// The nodes that an array of JSON strings names. `None` where an item is
/// no string.
pub fn names_from_json(items: &Vec<Json>) -> (names: Option<Vec<NodeId>>)
    ensures
        names.deep_view() == texts_from(items.deep_view()),
        names matches Some(names) ==> all_tagged(names@),
{
    let mut names: Vec<NodeId> = Vec::new();
    let mut i: usize = 0;
    while i < items.len()
        invariant
            i <= items@.len(),
            names@.len() == i,
            forall|k: int| 0 <= k < i ==> #[trigger] items.deep_view()[k] == JsonModel::Text(names@[k]@),
            forall|k: int| 0 <= k < i ==> (#[trigger] names@[k]).wf(),
        decreases items@.len() - i,
    {
        match &items[i] {
            Json::Text(text) => {
                names.push(NodeId::from(text.as_str()));
            },
            _ => {
                assert(!(items.deep_view()[i as int] is Text));
                return None;
            },
        }
        i += 1;
    }
    proof {
        assert(names.deep_view() =~= texts_from(items.deep_view())->Some_0);
    }
    Some(names)
}

/// Every identifier carries the tag that goes with its name.
pub open spec fn all_tagged(names: Seq<NodeId>) -> bool {
    forall|i: int| 0 <= i < names.len() ==> (#[trigger] names[i]).wf()
}

/// A payload that can travel in the body of an envelope.
pub trait Payload: Sized + DeepView {
    /// Whether every identifier in the payload carries the tag that goes
    /// with its name.
    spec fn tagged(&self) -> bool;

    /// Whether the payload can be written down and read back: what it holds
    /// must be finite.
    spec fn valid(model: <Self as DeepView>::V) -> bool;

    /// The members of the body that stand for the payload: `type` first,
    /// then what the payload carries.
    spec fn members(model: <Self as DeepView>::V) -> Seq<(Seq<char>, JsonModel)>;

    /// The payload that the members of a body stand for. `None` where they
    /// stand for none.
    spec fn from_members(members: Seq<(Seq<char>, JsonModel)>) -> Option<<Self as DeepView>::V>;

    /// Writes the payload as members of a body.
    fn to_members(&self) -> (members: Vec<(String, Json)>)
        ensures
            members.deep_view() == Self::members(self.deep_view()),
    ;

    /// Reads the payload from the members of a body.
    fn read_members(members: &Vec<(String, Json)>) -> (payload: Option<Self>)
        ensures
            payload.deep_view() == Self::from_members(members.deep_view()),
            payload matches Some(payload) ==> payload.tagged(),
    ;

    /// What is read from the members of a body can be written down again.
    proof fn lemma_read_is_valid(members: Seq<(Seq<char>, JsonModel)>)
        ensures
            Self::from_members(members) matches Some(model) ==> Self::valid(model),
    ;

    /// A payload that is written into a body after the number of the
    /// message reads back as itself, and none of its members is taken for
    /// the number.
    proof fn lemma_reads_back(model: <Self as DeepView>::V, number: (Seq<char>, JsonModel))
        requires
            Self::valid(model),
            number.0 == "msg_id"@ || number.0 == "in_reply_to"@,
        ensures
            Self::from_members(seq![number] + Self::members(model)) == Some(model),
            member(Self::members(model), "msg_id"@) is None,
            member(Self::members(model), "in_reply_to"@) is None,
    ;
}

impl<A: Payload> Message<A> {
    /// Whether every identifier on and in the envelope carries the tag that
    /// goes with its name.
    pub open spec fn tagged(&self) -> bool {
        self.src.wf() && self.dest.wf() && self.value().tagged()
    }
}

/// The name of the member that holds the number of a message.
pub open spec fn id_name<V>(body: MessageBody<V>) -> Seq<char> {
    match body {
        MessageBody::Request { .. } => "msg_id"@,
        MessageBody::Reply { .. } => "in_reply_to"@,
    }
}

/// The members of a body: the number, then the payload.
pub open spec fn body_members<V>(
    envelope: Envelope<V>,
    payload: Seq<(Seq<char>, JsonModel)>,
) -> Seq<(Seq<char>, JsonModel)> {
    seq![named(id_name(envelope.body), JsonModel::Int(envelope.id().0 as int))] + payload
}

/// An envelope as a JSON value, given the members that stand for its
/// payload.
pub open spec fn envelope_json<V>(
    envelope: Envelope<V>,
    payload: Seq<(Seq<char>, JsonModel)>,
) -> JsonModel {
    JsonModel::Object(
        seq![
            named("src"@, JsonModel::Text(envelope.src)),
            named("dest"@, JsonModel::Text(envelope.dest)),
            named("body"@, JsonModel::Object(body_members(envelope, payload))),
        ],
    )
}

/// The envelope that a JSON value stands for: an object with the strings
/// `src` and `dest` and the object `body`, whose members stand for a payload
/// and hold a number under `msg_id`, or else under `in_reply_to`. Other
/// members are passed over. `None` where the value stands for no envelope.
pub open spec fn envelope_from_json<A: Payload>(tree: JsonModel) -> Option<
    Envelope<<A as DeepView>::V>,
> {
    match tree {
        JsonModel::Object(members) => {
            match (
                text_member(members, "src"@),
                text_member(members, "dest"@),
                object_member(members, "body"@),
            ) {
                (Some(src), Some(dest), Some(body)) => match A::from_members(body) {
                    Some(value) => match id_member(body, "msg_id"@) {
                        Some(id) => Some(
                            Envelope {
                                src,
                                dest,
                                body: MessageBody::Request { msg_id: MessageId(id), value },
                            },
                        ),
                        None => match id_member(body, "in_reply_to"@) {
                            Some(id) => Some(
                                Envelope {
                                    src,
                                    dest,
                                    body: MessageBody::Reply { in_reply_to: MessageId(id), value },
                                },
                            ),
                            None => None,
                        },
                    },
                    None => None,
                },
                _ => None,
            }
        },
        _ => None,
    }
}

/// The line of an envelope.
pub open spec fn encoded<A: Payload>(envelope: Envelope<<A as DeepView>::V>) -> Seq<char> {
    render(envelope_json(envelope, A::members(envelope.value())))
}

/// What a line decodes to: the envelope that the line stands for, or
/// `None` where the line is no JSON object or stands for no envelope.
pub open spec fn decoded<A: Payload>(line: Seq<char>) -> Option<Envelope<<A as DeepView>::V>> {
    match parsed_line(line) {
        Some(tree) => envelope_from_json::<A>(tree),
        None => None,
    }
}

/// An envelope as a JSON value.
pub fn to_json<A: Payload>(message: &Message<A>) -> (tree: Json)
    ensures
        tree.deep_view() == envelope_json(
            message.deep_view(),
            A::members(message.deep_view().value()),
        ),
{
    let (name, number, value) = match &message.body {
        MessageBody::Request { msg_id, value } => ("msg_id", msg_id.0, value),
        MessageBody::Reply { in_reply_to, value } => ("in_reply_to", in_reply_to.0, value),
    };
    let mut body: Vec<(String, Json)> = Vec::new();
    body.push((String::from_str(name), Json::Int(number as i128)));
    let mut payload = value.to_members();
    let ghost payload_model = payload.deep_view();
    let ghost lead = body.deep_view();
    body.append(&mut payload);
    proof {
        assert(body.deep_view() =~= lead + payload_model);
        assert(lead =~= seq![
            named(id_name(message.deep_view().body), JsonModel::Int(number as int)),
        ]);
        lemma_object_model(body);
    }
    let mut members: Vec<(String, Json)> = Vec::new();
    members.push((String::from_str("src"), Json::Text(message.src.to_string())));
    members.push((String::from_str("dest"), Json::Text(message.dest.to_string())));
    members.push((String::from_str("body"), Json::Object(body)));
    proof {
        lemma_object_model(members);
        assert(members.deep_view() =~= envelope_json(
            message.deep_view(),
            A::members(message.deep_view().value()),
        )->Object_0);
    }
    Json::Object(members)
}

/// The envelope that a JSON value stands for.
pub fn from_json<A: Payload>(tree: &Json) -> (message: Option<Message<A>>)
    ensures
        message.deep_view() == envelope_from_json::<A>(tree.deep_view()),
        message matches Some(message) ==> message.tagged(),
{
    let members = match tree {
        Json::Object(members) => {
            proof {
                lemma_object_model(*members);
            }
            members
        },
        _ => {
            return None;
        },
    };
    let src = match find_text(members, "src") {
        Some(text) => NodeId::from(text.as_str()),
        None => {
            return None;
        },
    };
    let dest = match find_text(members, "dest") {
        Some(text) => NodeId::from(text.as_str()),
        None => {
            return None;
        },
    };
    let body = match find_object(members, "body") {
        Some(body) => body,
        None => {
            return None;
        },
    };
    let value = match A::read_members(body) {
        Some(value) => value,
        None => {
            return None;
        },
    };
    match find_id(body, "msg_id") {
        Some(id) => Some(
            Message { src, dest, body: MessageBody::Request { msg_id: MessageId(id), value } },
        ),
        None => match find_id(body, "in_reply_to") {
            Some(id) => Some(
                Message { src, dest, body: MessageBody::Reply { in_reply_to: MessageId(id), value } },
            ),
            None => None,
        },
    }
}

/// Writes an envelope as one line of JSON, without the line break.
pub fn encode<A: Payload>(message: &Message<A>) -> (line: String)
    ensures
        line@ == encoded::<A>(message.deep_view()),
{
    let tree = to_json(message);
    to_text(&tree)
}

/// Reads an envelope from one line of JSON. A line that is no JSON object,
/// or an object that stands for no envelope, is an error.
pub fn decode<A: Payload>(line: &str) -> (message: Result<Message<A>, Error>)
    ensures
        match message {
            Ok(message) => decoded::<A>(line@) == Some(message.deep_view()) && message.tagged(),
            Err(e) => decoded::<A>(line@) is None && e is Serde,
        },
{
    match parse_line(line) {
        Ok(tree) => match from_json(&tree) {
            Some(message) => Ok(message),
            None => Err(Error::Serde(String::from_str("The line holds no envelope of this node"))),
        },
        Err(text) => Err(Error::Serde(text)),
    }
}

/// An envelope that is written as a JSON value reads back as itself.
pub proof fn lemma_envelope_reads_back<A: Payload>(envelope: Envelope<<A as DeepView>::V>)
    requires
        A::valid(envelope.value()),
    ensures
        envelope_from_json::<A>(envelope_json(envelope, A::members(envelope.value()))) == Some(
            envelope,
        ),
{
    reveal_strlit("src");
    reveal_strlit("dest");
    reveal_strlit("body");
    reveal_strlit("msg_id");
    reveal_strlit("in_reply_to");
    let payload = A::members(envelope.value());
    let number = named(id_name(envelope.body), JsonModel::Int(envelope.id().0 as int));
    let body = body_members(envelope, payload);
    let members = envelope_json(envelope, payload)->Object_0;
    A::lemma_reads_back(envelope.value(), number);
    assert("src"@ != "dest"@ && "src"@ != "body"@ && "dest"@ != "body"@) by {
        assert("src"@[0] != "dest"@[0] && "src"@[0] != "body"@[0] && "dest"@[0] != "body"@[0]);
    }
    assert("msg_id"@ != "in_reply_to"@) by {
        assert("msg_id"@[0] != "in_reply_to"@[0]);
    }
    lemma_member_at(members, "src"@, 0);
    lemma_member_at(members, "dest"@, 1);
    lemma_member_at(members, "body"@, 2);
    assert(body[0] == number);
    assert(body.drop_first() =~= payload);
    lemma_member_at(body, number.0, 0);
    match envelope.body {
        MessageBody::Request { msg_id, value } => {},
        MessageBody::Reply { in_reply_to, value } => {
            assert(member(body, "msg_id"@) == member(payload, "msg_id"@));
        },
    }
}

/// An envelope that was read from a JSON value and is written down again
/// reads back as the same envelope, whatever else the value held and in
/// whatever order its members stood.
pub proof fn lemma_accepted_envelope_is_stable<A: Payload>(tree: JsonModel)
    requires
        envelope_from_json::<A>(tree) is Some,
    ensures
        ({
            let envelope = envelope_from_json::<A>(tree)->Some_0;
            &&& A::valid(envelope.value())
            &&& envelope_from_json::<A>(envelope_json(envelope, A::members(envelope.value())))
                == Some(envelope)
        }),
{
    let body = object_member(tree->Object_0, "body"@)->Some_0;
    A::lemma_read_is_valid(body);
    lemma_envelope_reads_back::<A>(envelope_from_json::<A>(tree)->Some_0);
}

} // verus!
