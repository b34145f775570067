//! The payloads of the identifier node.

use crate::common::codec::find_text;
use crate::common::codec::same_text;
use crate::common::codec::text_member;
use crate::common::codec::text_pair;
use crate::common::codec::Payload;
use crate::common::json::lemma_member_absent;
use crate::common::json::lemma_member_at;
use crate::common::json::named;
use crate::common::json::Json;
use crate::common::json::JsonModel;
use vstd::prelude::*;

verus! {

/// The payloads that an identifier node reads and writes.
#[derive(Debug, PartialEq)]
pub enum GenerateMessage {
    /// The request for a fresh identifier.
    Generate,
    /// A fresh identifier.
    GenerateOk { id: String },
}

/// A `GenerateMessage` as a value.
pub enum GenerateModel {
    Generate,
    GenerateOk { id: Seq<char> },
}

impl DeepView for GenerateMessage {
    type V = GenerateModel;

    open spec fn deep_view(&self) -> GenerateModel {
        match self {
            GenerateMessage::Generate => GenerateModel::Generate,
            GenerateMessage::GenerateOk { id } => GenerateModel::GenerateOk { id: id@ },
        }
    }
}

impl Payload for GenerateMessage {
    /// The payload holds no identifier.
    open spec fn tagged(&self) -> bool {
        true
    }

    open spec fn valid(model: GenerateModel) -> bool {
        true
    }

    /// `generate` carries nothing; `generate_ok` carries the identifier
    /// under `id`.
    open spec fn members(model: GenerateModel) -> Seq<(Seq<char>, JsonModel)> {
        match model {
            GenerateModel::Generate => seq![named("type"@, JsonModel::Text("generate"@))],
            GenerateModel::GenerateOk { id } => seq![
                named("type"@, JsonModel::Text("generate_ok"@)),
                named("id"@, JsonModel::Text(id)),
            ],
        }
    }

    open spec fn from_members(members: Seq<(Seq<char>, JsonModel)>) -> Option<GenerateModel> {
        match text_member(members, "type"@) {
            Some(tag) => if tag == "generate"@ {
                Some(GenerateModel::Generate)
            } else if tag == "generate_ok"@ {
                match text_member(members, "id"@) {
                    Some(id) => Some(GenerateModel::GenerateOk { id }),
                    None => None,
                }
            } else {
                None
            },
            None => None,
        }
    }

    fn to_members(&self) -> (members: Vec<(String, Json)>) {
        let mut members: Vec<(String, Json)> = Vec::new();
        match self {
            GenerateMessage::Generate => {
                members.push(text_pair("type", "generate"));
            },
            GenerateMessage::GenerateOk { id } => {
                members.push(text_pair("type", "generate_ok"));
                members.push(text_pair("id", id.as_str()));
            },
        }
        assert(members.deep_view() =~= Self::members(self.deep_view()));
        members
    }

    fn read_members(members: &Vec<(String, Json)>) -> (payload: Option<Self>) {
        let tag = match find_text(members, "type") {
            Some(tag) => tag,
            None => {
                return None;
            },
        };
        if same_text(tag.as_str(), "generate") {
            Some(GenerateMessage::Generate)
        } else if same_text(tag.as_str(), "generate_ok") {
            match find_text(members, "id") {
                Some(id) => Some(GenerateMessage::GenerateOk { id: id.clone() }),
                None => None,
            }
        } else {
            None
        }
    }

    proof fn lemma_read_is_valid(members: Seq<(Seq<char>, JsonModel)>) {
    }

    proof fn lemma_reads_back(model: GenerateModel, number: (Seq<char>, JsonModel)) {
        reveal_strlit("msg_id");
        reveal_strlit("in_reply_to");
        reveal_strlit("type");
        reveal_strlit("id");
        reveal_strlit("generate");
        reveal_strlit("generate_ok");
        let written = Self::members(model);
        let body = seq![number] + written;
        assert("type"@[0] == 't' && "id"@.len() == 2 && "msg_id"@.len() == 6
            && "in_reply_to"@.len() == 11 && "type"@.len() == 4);
        assert("generate"@.len() == 8 && "generate_ok"@.len() == 11);
        lemma_member_at(body, "type"@, 1);
        lemma_member_absent(written, "msg_id"@);
        lemma_member_absent(written, "in_reply_to"@);
        match model {
            GenerateModel::GenerateOk { id } => {
                lemma_member_at(body, "id"@, 2);
            },
            _ => {},
        }
    }
}

} // verus!
