//! The handler of the identifier node.

use crate::common::actor::Actor;
use crate::common::error::Error;
use crate::common::error::ErrorModel;
use crate::common::message::message::Envelope;
use crate::common::message::message::Message;
use crate::common::runner::reply;
use crate::common::runner::ActionModel;
use crate::common::runner::RunnerAction;
use crate::common::text::decimal;
use crate::common::text::decimal_nat;
use crate::common::text::lemma_decimal_nat_injective;
use crate::common::text::push_decimal;
use crate::common::this_node::ThisNode;
use crate::unique_id::message::GenerateMessage;
use crate::unique_id::message::GenerateModel;
use vstd::prelude::*;
use vstd::string::StringExecFns;

verus! {

/// The handler of the identifier node: the node's identity and the number
/// of identifiers handed out so far.
pub struct UniqueIdActor {
    this_node: ThisNode,
    counter: u64,
}

/// The identifier that the node `node` hands out after `counter` others:
/// its name, an underscore and the count.
pub open spec fn identifier(node: Seq<char>, counter: u64) -> Seq<char> {
    node + "_"@ + decimal(counter as int)
}

/// A node never hands out an identifier twice: after different counts it
/// hands out different identifiers.
pub proof fn lemma_identifiers_differ(node: Seq<char>, first: u64, second: u64)
    requires
        first != second,
    ensures
        identifier(node, first) != identifier(node, second),
{
    let lead = node + "_"@;
    let a = decimal_nat(first as nat);
    let b = decimal_nat(second as nat);
    if identifier(node, first) == identifier(node, second) {
        assert((lead + a).subrange(lead.len() as int, (lead + a).len() as int) =~= a);
        assert((lead + b).subrange(lead.len() as int, (lead + b).len() as int) =~= b);
        assert(a == b);
        lemma_decimal_nat_injective(first as nat, second as nat);
    }
}

/// What the handler that has handed out `counter` identifiers returns for
/// `request`: the next identifier for a `Generate`, unless the count has
/// reached its limit, and an error for a `GenerateOk`.
pub open spec fn generate_outcome(node: Seq<char>, counter: u64, request: Envelope<GenerateModel>) -> Result<
    Seq<ActionModel<GenerateModel, ()>>,
    ErrorModel,
> {
    match request.value() {
        GenerateModel::Generate => if counter < u64::MAX {
            Ok(
                seq![
                    ActionModel::SendMessage(
                        request.answer(GenerateModel::GenerateOk { id: identifier(node, counter) }),
                    ),
                ],
            )
        } else {
            Err(ErrorModel::UnexpectedError("No identifier is left"@))
        },
        GenerateModel::GenerateOk { .. } => Err(ErrorModel::UnexpectedMessage("GenerateOk"@)),
    }
}

/// The model of what the handler returned.
pub open spec fn generate_result_model(
    result: Result<Vec<RunnerAction<GenerateMessage, ()>>, Error>,
) -> Result<Seq<ActionModel<GenerateModel, ()>>, ErrorModel> {
    match result {
        Ok(actions) => Ok(actions.deep_view()),
        Err(e) => Err(e.deep_view()),
    }
}

impl UniqueIdActor {
    /// The name of the node.
    pub closed spec fn node(&self) -> Seq<char> {
        self.this_node.node_id()@
    }

    /// How many identifiers the handler has handed out.
    pub closed spec fn handed_out(&self) -> u64 {
        self.counter
    }
}

impl Actor for UniqueIdActor {
    type Msg = GenerateMessage;

    type TimerKey = ();

    open spec fn wf(&self) -> bool {
        true
    }

    /// Every node gets a handler that has handed out nothing.
    open spec fn starts(this_node: ThisNode, started: Result<Self, Error>) -> bool {
        &&& started matches Ok(actor)
        &&& actor.node() == this_node.node_id()@
        &&& actor.handed_out() == 0
    }

    /// The count goes up by one with each identifier handed out.
    open spec fn handles_request(
        before: Self,
        request: Message<GenerateMessage>,
        now: u64,
        after: Self,
        result: Result<Vec<RunnerAction<GenerateMessage, ()>>, Error>,
    ) -> bool {
        &&& generate_result_model(result) == generate_outcome(
            before.node(),
            before.handed_out(),
            request.deep_view(),
        )
        &&& after.node() == before.node()
        &&& after.handed_out() == if result is Ok {
            (before.handed_out() + 1) as u64
        } else {
            before.handed_out()
        }
    }

    /// The handler sets no timers; one that fires all the same is ignored.
    open spec fn handles_timeout(
        before: Self,
        timer_key: (),
        now: u64,
        after: Self,
        result: Result<Vec<RunnerAction<GenerateMessage, ()>>, Error>,
    ) -> bool {
        &&& generate_result_model(result) == Ok::<Seq<ActionModel<GenerateModel, ()>>, ErrorModel>(
            Seq::empty(),
        )
        &&& after.node() == before.node()
        &&& after.handed_out() == before.handed_out()
    }

    fn new(this_node: ThisNode) -> (started: Result<Self, Error>) {
        Ok(UniqueIdActor { this_node, counter: 0 })
    }

    fn on_request(&mut self, request: Message<GenerateMessage>, now: u64) -> (result: Result<
        Vec<RunnerAction<GenerateMessage, ()>>,
        Error,
    >) {
        let ghost asked = request.deep_view();
        let (body, address) = request.body_and_address();
        match body {
            GenerateMessage::Generate => {
                if self.counter == u64::MAX {
                    return Err(Error::UnexpectedError("No identifier is left".to_owned()));
                }
                let mut id = self.this_node.node_id().to_string();
                id.append("_");
                push_decimal(&mut id, self.counter as u128);
                self.counter += 1;
                let actions = vec![reply(address, GenerateMessage::GenerateOk { id })];
                proof {
                    assert(id@ =~= identifier(old(self).node(), old(self).handed_out()));
                    assert(actions.deep_view() =~= seq![
                        ActionModel::SendMessage(asked.answer(GenerateModel::GenerateOk { id: id@ })),
                    ]);
                }
                Ok(actions)
            },
            GenerateMessage::GenerateOk { .. } => Err(
                Error::UnexpectedMessage("GenerateOk".to_owned()),
            ),
        }
    }

    fn on_timeout(&mut self, timer_key: (), now: u64) -> (result: Result<
        Vec<RunnerAction<GenerateMessage, ()>>,
        Error,
    >) {
        let actions: Vec<RunnerAction<GenerateMessage, ()>> = Vec::new();
        assert(actions.deep_view() =~= Seq::<ActionModel<GenerateModel, ()>>::empty());
        Ok(actions)
    }
}

} // verus!
