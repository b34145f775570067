//! The payloads of the echo node.

use crate::common::codec::find_text;
use crate::common::codec::same_text;
use crate::common::codec::text_member;
use crate::common::codec::text_pair;
use crate::common::codec::Payload;
use crate::common::json::lemma_member_absent;
use crate::common::json::lemma_member_at;
use crate::common::json::named;
use crate::common::json::Json;
use crate::common::json::JsonModel;
use vstd::prelude::*;

verus! {

/// The payloads that an echo node reads and writes.
#[derive(Debug, PartialEq)]
pub enum EchoMessage {
    /// A text to send back.
    Echo { echo: String },
    /// The text, sent back.
    EchoOk { echo: String },
}

/// An `EchoMessage` as a value.
pub enum EchoModel {
    Echo { echo: Seq<char> },
    EchoOk { echo: Seq<char> },
}

impl DeepView for EchoMessage {
    type V = EchoModel;

    open spec fn deep_view(&self) -> EchoModel {
        match self {
            EchoMessage::Echo { echo } => EchoModel::Echo { echo: echo@ },
            EchoMessage::EchoOk { echo } => EchoModel::EchoOk { echo: echo@ },
        }
    }
}

impl Payload for EchoMessage {
    /// The payload holds no identifier.
    open spec fn tagged(&self) -> bool {
        true
    }

    open spec fn valid(model: EchoModel) -> bool {
        true
    }

    /// Both payloads carry the text under `echo`.
    open spec fn members(model: EchoModel) -> Seq<(Seq<char>, JsonModel)> {
        match model {
            EchoModel::Echo { echo } => seq![
                named("type"@, JsonModel::Text("echo"@)),
                named("echo"@, JsonModel::Text(echo)),
            ],
            EchoModel::EchoOk { echo } => seq![
                named("type"@, JsonModel::Text("echo_ok"@)),
                named("echo"@, JsonModel::Text(echo)),
            ],
        }
    }

    open spec fn from_members(members: Seq<(Seq<char>, JsonModel)>) -> Option<EchoModel> {
        match (text_member(members, "type"@), text_member(members, "echo"@)) {
            (Some(tag), Some(echo)) => if tag == "echo"@ {
                Some(EchoModel::Echo { echo })
            } else if tag == "echo_ok"@ {
                Some(EchoModel::EchoOk { echo })
            } else {
                None
            },
            _ => None,
        }
    }

    fn to_members(&self) -> (members: Vec<(String, Json)>) {
        let mut members: Vec<(String, Json)> = Vec::new();
        match self {
            EchoMessage::Echo { echo } => {
                members.push(text_pair("type", "echo"));
                members.push(text_pair("echo", echo.as_str()));
            },
            EchoMessage::EchoOk { echo } => {
                members.push(text_pair("type", "echo_ok"));
                members.push(text_pair("echo", echo.as_str()));
            },
        }
        assert(members.deep_view() =~= Self::members(self.deep_view()));
        members
    }

    fn read_members(members: &Vec<(String, Json)>) -> (payload: Option<Self>) {
        let tag = match find_text(members, "type") {
            Some(tag) => tag,
            None => {
                return None;
            },
        };
        let echo = match find_text(members, "echo") {
            Some(echo) => echo.clone(),
            None => {
                return None;
            },
        };
        if same_text(tag.as_str(), "echo") {
            Some(EchoMessage::Echo { echo })
        } else if same_text(tag.as_str(), "echo_ok") {
            Some(EchoMessage::EchoOk { echo })
        } else {
            None
        }
    }

    proof fn lemma_read_is_valid(members: Seq<(Seq<char>, JsonModel)>) {
    }

    proof fn lemma_reads_back(model: EchoModel, number: (Seq<char>, JsonModel)) {
        reveal_strlit("msg_id");
        reveal_strlit("in_reply_to");
        reveal_strlit("type");
        reveal_strlit("echo");
        reveal_strlit("echo_ok");
        let written = Self::members(model);
        let body = seq![number] + written;
        assert("type"@[0] == 't' && "echo"@[0] == 'e' && "msg_id"@[0] == 'm' && "in_reply_to"@[0]
            == 'i');
        assert("echo"@.len() == 4 && "echo_ok"@.len() == 7);
        lemma_member_at(body, "type"@, 1);
        lemma_member_at(body, "echo"@, 2);
        lemma_member_absent(written, "msg_id"@);
        lemma_member_absent(written, "in_reply_to"@);
    }
}

} // verus!
