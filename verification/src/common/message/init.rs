//! The handshake that tells a node who it is.

use crate::common::codec::all_tagged;
use crate::common::codec::find_list;
use crate::common::codec::find_text;
use crate::common::codec::lemma_texts;
use crate::common::codec::list_member;
use crate::common::codec::names_from_json;
use crate::common::codec::names_to_json;
use crate::common::codec::same_text;
use crate::common::codec::text_member;
use crate::common::codec::text_pair;
use crate::common::codec::texts;
use crate::common::codec::texts_from;
use crate::common::codec::Payload;
use crate::common::json::lemma_member_absent;
use crate::common::json::lemma_member_at;
use crate::common::json::named;
use crate::common::json::Json;
use crate::common::json::JsonModel;
use crate::common::message::NodeId;
use vstd::prelude::*;
use vstd::string::StringExecFns;

verus! {

/// The two bodies of the handshake.
#[derive(Debug, PartialEq)]
pub enum InitMessage {
    /// The node's own name and the names of all nodes of the cluster.
    Init { node_id: NodeId, node_ids: Vec<NodeId> },
    /// The acknowledgement.
    InitOk,
}

/// An `InitMessage` as a value.
pub enum InitModel {
    Init { node_id: Seq<char>, node_ids: Seq<Seq<char>> },
    InitOk,
}

impl DeepView for InitMessage {
    type V = InitModel;

    open spec fn deep_view(&self) -> InitModel {
        match self {
            InitMessage::Init { node_id, node_ids } => InitModel::Init {
                node_id: node_id@,
                node_ids: node_ids.deep_view(),
            },
            InitMessage::InitOk => InitModel::InitOk,
        }
    }
}

impl Payload for InitMessage {
    open spec fn tagged(&self) -> bool {
        match self {
            InitMessage::Init { node_id, node_ids } => node_id.wf() && all_tagged(node_ids@),
            InitMessage::InitOk => true,
        }
    }

    open spec fn valid(model: InitModel) -> bool {
        true
    }

    /// `init` carries `node_id` and `node_ids`; `init_ok` carries nothing.
    open spec fn members(model: InitModel) -> Seq<(Seq<char>, JsonModel)> {
        match model {
            InitModel::Init { node_id, node_ids } => seq![
                named("type"@, JsonModel::Text("init"@)),
                named("node_id"@, JsonModel::Text(node_id)),
                named("node_ids"@, JsonModel::List(texts(node_ids))),
            ],
            InitModel::InitOk => seq![named("type"@, JsonModel::Text("init_ok"@))],
        }
    }

    open spec fn from_members(members: Seq<(Seq<char>, JsonModel)>) -> Option<InitModel> {
        match text_member(members, "type"@) {
            Some(tag) => if tag == "init"@ {
                match (text_member(members, "node_id"@), list_member(members, "node_ids"@)) {
                    (Some(node_id), Some(items)) => match texts_from(items) {
                        Some(node_ids) => Some(InitModel::Init { node_id, node_ids }),
                        None => None,
                    },
                    _ => None,
                }
            } else if tag == "init_ok"@ {
                Some(InitModel::InitOk)
            } else {
                None
            },
            None => None,
        }
    }

    fn to_members(&self) -> (members: Vec<(String, Json)>) {
        let mut members: Vec<(String, Json)> = Vec::new();
        match self {
            InitMessage::Init { node_id, node_ids } => {
                members.push(text_pair("type", "init"));
                members.push(text_pair("node_id", node_id.as_str()));
                members.push((String::from_str("node_ids"), names_to_json(node_ids)));
            },
            InitMessage::InitOk => {
                members.push(text_pair("type", "init_ok"));
            },
        }
        assert(members.deep_view() =~= Self::members(self.deep_view()));
        members
    }

    fn read_members(members: &Vec<(String, Json)>) -> (payload: Option<Self>) {
        let tag = match find_text(members, "type") {
            Some(tag) => tag,
            None => {
                return None;
            },
        };
        if same_text(tag.as_str(), "init") {
            let node_id = match find_text(members, "node_id") {
                Some(text) => NodeId::from(text.as_str()),
                None => {
                    return None;
                },
            };
            let items = match find_list(members, "node_ids") {
                Some(items) => items,
                None => {
                    return None;
                },
            };
            match names_from_json(items) {
                Some(node_ids) => Some(InitMessage::Init { node_id, node_ids }),
                None => None,
            }
        } else if same_text(tag.as_str(), "init_ok") {
            Some(InitMessage::InitOk)
        } else {
            None
        }
    }

    proof fn lemma_read_is_valid(members: Seq<(Seq<char>, JsonModel)>) {
    }

    proof fn lemma_reads_back(model: InitModel, number: (Seq<char>, JsonModel)) {
        reveal_strlit("msg_id");
        reveal_strlit("in_reply_to");
        reveal_strlit("type");
        reveal_strlit("node_id");
        reveal_strlit("node_ids");
        reveal_strlit("init");
        reveal_strlit("init_ok");
        let written = Self::members(model);
        let body = seq![number] + written;
        assert(number.0[0] != "type"@[0] && number.0[0] != "node_id"@[0]);
        assert("type"@[0] != "node_id"@[0] && "type"@[0] != "node_ids"@[0]);
        assert("node_id"@.len() != "node_ids"@.len());
        assert("init"@.len() != "init_ok"@.len());
        assert("msg_id"@[0] != "type"@[0] && "msg_id"@[0] != "node_id"@[0]);
        assert("in_reply_to"@[0] != "type"@[0] && "in_reply_to"@[0] != "node_id"@[0]);
        lemma_member_at(body, "type"@, 1);
        lemma_member_absent(written, "msg_id"@);
        lemma_member_absent(written, "in_reply_to"@);
        match model {
            InitModel::Init { node_id, node_ids } => {
                lemma_member_at(body, "node_id"@, 2);
                lemma_member_at(body, "node_ids"@, 3);
                lemma_texts(node_ids);
            },
            InitModel::InitOk => {},
        }
    }
}

} // verus!
