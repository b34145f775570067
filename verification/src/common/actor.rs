//! The contract between the event loop and the handler of a node.

use crate::common::error::Error;
use crate::common::message::message::Message;
use crate::common::runner::deadlines_in_range;
use crate::common::runner::RunnerAction;
use crate::common::runner::TIME_HORIZON;
use crate::common::this_node::ThisNode;
use vstd::prelude::*;

verus! {

/// A handler: it is built once from the node's identity, and then turns
/// each envelope and each timer that fires into a list of actions.
pub trait Actor: Sized {
    /// The payload of the envelopes that the handler reads and writes.
    type Msg;

    /// What tells the handler's timers apart.
    type TimerKey;

    /// The handler's own invariant.
    spec fn wf(&self) -> bool;

    /// What `new` returns for a node.
    spec fn starts(this_node: ThisNode, started: Result<Self, Error>) -> bool;

    /// What `on_request` does: it takes the handler from `before` to `after`
    /// and returns `result`.
    spec fn handles_request(
        before: Self,
        request: Message<Self::Msg>,
        now: u64,
        after: Self,
        result: Result<Vec<RunnerAction<Self::Msg, Self::TimerKey>>, Error>,
    ) -> bool;

    /// What `on_timeout` does: it takes the handler from `before` to `after`
    /// and returns `result`.
    spec fn handles_timeout(
        before: Self,
        timer_key: Self::TimerKey,
        now: u64,
        after: Self,
        result: Result<Vec<RunnerAction<Self::Msg, Self::TimerKey>>, Error>,
    ) -> bool;

    /// Builds the handler of a node.
    fn new(this_node: ThisNode) -> (started: Result<Self, Error>)
        ensures
            Self::starts(this_node, started),
            started matches Ok(actor) ==> actor.wf(),
    ;

    /// Handles an envelope that arrived at `now`.
    fn on_request(&mut self, request: Message<Self::Msg>, now: u64) -> (result: Result<
        Vec<RunnerAction<Self::Msg, Self::TimerKey>>,
        Error,
    >)
        requires
            old(self).wf(),
            now <= TIME_HORIZON,
        ensures
            final(self).wf(),
            Self::handles_request(*old(self), request, now, *final(self), result),
            result matches Ok(actions) ==> deadlines_in_range(actions@, now),
    ;

    /// Handles a timer that fired at `now`.
    fn on_timeout(&mut self, timer_key: Self::TimerKey, now: u64) -> (result: Result<
        Vec<RunnerAction<Self::Msg, Self::TimerKey>>,
        Error,
    >)
        requires
            old(self).wf(),
            now <= TIME_HORIZON,
        ensures
            final(self).wf(),
            Self::handles_timeout(*old(self), timer_key, now, *final(self), result),
            result matches Ok(actions) ==> deadlines_in_range(actions@, now),
    ;
}

} // verus!
