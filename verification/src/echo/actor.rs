//! The handler of the echo node.

use crate::common::actor::Actor;
use crate::common::error::Error;
use crate::common::error::ErrorModel;
use crate::common::message::message::Envelope;
use crate::common::message::message::Message;
use crate::common::runner::reply;
use crate::common::runner::ActionModel;
use crate::common::runner::RunnerAction;
use crate::common::this_node::ThisNode;
use crate::echo::message::EchoMessage;
use crate::echo::message::EchoModel;
use vstd::prelude::*;

verus! {

/// The handler of the echo node. It keeps no state.
pub struct EchoActor;

/// What the handler returns for `request`: the answer that carries the text
/// of an `Echo`, and an error for an `EchoOk`.
pub open spec fn echo_outcome(request: Envelope<EchoModel>) -> Result<
    Seq<ActionModel<EchoModel, ()>>,
    ErrorModel,
> {
    match request.value() {
        EchoModel::Echo { echo } => Ok(
            seq![ActionModel::SendMessage(request.answer(EchoModel::EchoOk { echo }))],
        ),
        EchoModel::EchoOk { .. } => Err(ErrorModel::UnexpectedMessage("EchoOk"@)),
    }
}

/// The model of what the handler returned.
pub open spec fn echo_result_model(result: Result<Vec<RunnerAction<EchoMessage, ()>>, Error>) -> Result<
    Seq<ActionModel<EchoModel, ()>>,
    ErrorModel,
> {
    match result {
        Ok(actions) => Ok(actions.deep_view()),
        Err(e) => Err(e.deep_view()),
    }
}

impl Actor for EchoActor {
    type Msg = EchoMessage;

    type TimerKey = ();

    open spec fn wf(&self) -> bool {
        true
    }

    /// Every node gets a handler.
    open spec fn starts(this_node: ThisNode, started: Result<Self, Error>) -> bool {
        started is Ok
    }

    open spec fn handles_request(
        before: Self,
        request: Message<EchoMessage>,
        now: u64,
        after: Self,
        result: Result<Vec<RunnerAction<EchoMessage, ()>>, Error>,
    ) -> bool {
        echo_result_model(result) == echo_outcome(request.deep_view())
    }

    /// The handler sets no timers; one that fires all the same is ignored.
    open spec fn handles_timeout(
        before: Self,
        timer_key: (),
        now: u64,
        after: Self,
        result: Result<Vec<RunnerAction<EchoMessage, ()>>, Error>,
    ) -> bool {
        echo_result_model(result) == Ok::<Seq<ActionModel<EchoModel, ()>>, ErrorModel>(Seq::empty())
    }

    fn new(this_node: ThisNode) -> (started: Result<Self, Error>) {
        Ok(EchoActor)
    }

    fn on_request(&mut self, request: Message<EchoMessage>, now: u64) -> (result: Result<
        Vec<RunnerAction<EchoMessage, ()>>,
        Error,
    >) {
        let ghost asked = request.deep_view();
        let (body, address) = request.body_and_address();
        match body {
            EchoMessage::Echo { echo } => {
                let actions = vec![reply(address, EchoMessage::EchoOk { echo })];
                proof {
                    assert(actions.deep_view() =~= seq![
                        ActionModel::SendMessage(asked.answer(EchoModel::EchoOk { echo: echo@ })),
                    ]);
                }
                Ok(actions)
            },
            EchoMessage::EchoOk { .. } => Err(Error::UnexpectedMessage("EchoOk".to_owned())),
        }
    }

    fn on_timeout(&mut self, timer_key: (), now: u64) -> (result: Result<
        Vec<RunnerAction<EchoMessage, ()>>,
        Error,
    >) {
        let actions: Vec<RunnerAction<EchoMessage, ()>> = Vec::new();
        assert(actions.deep_view() =~= Seq::<ActionModel<EchoModel, ()>>::empty());
        Ok(actions)
    }
}

} // verus!
