//! The steps of the event loop: what to do with the actions of a handler,
//! how long to wait for input, and the handshake that starts a node.

use crate::common::actor::Actor;
use crate::common::error::Error;
use crate::common::heap::is_earliest;
use crate::common::message::init::InitMessage;
use crate::common::message::message::Envelope;
use crate::common::message::message::Message;
use crate::common::message::message::MessageAddress;
use crate::common::record::Record;
use crate::common::this_node::ThisNode;
use crate::common::timer::due;
use crate::common::timer::in_time_order;
use crate::common::timer::pending;
use crate::common::timer::time_until;
use crate::common::timer::values_of;
use crate::common::timer::Timer;
use vstd::multiset::Multiset;
use vstd::prelude::*;

verus! {

/// The shortest time, in milliseconds, that the loop waits for input.
pub const MINIMUM_READ_DURATION: u64 = 1000;

/// The latest point in time, in milliseconds, that the loop may report as
/// the present.
pub const TIME_HORIZON: u64 = 0x7fff_ffff_ffff_ffff;

/// What a handler asks the loop to do.
#[derive(Debug, PartialEq)]
pub enum RunnerAction<A, B> {
    /// Put the envelope on the wire.
    SendMessage(Message<A>),
    /// Fire `timer_key` once `delay` milliseconds have passed.
    SetTimer { delay: u64, timer_key: B },
}

/// An action as a value: the envelope by its model.
pub enum ActionModel<V, K> {
    SendMessage(Envelope<V>),
    SetTimer { delay: u64, timer_key: K },
}

impl<A: DeepView, B> DeepView for RunnerAction<A, B> {
    type V = ActionModel<A::V, B>;

    open spec fn deep_view(&self) -> ActionModel<A::V, B> {
        match self {
            RunnerAction::SendMessage(message) => ActionModel::SendMessage(message.deep_view()),
            RunnerAction::SetTimer { delay, timer_key } => ActionModel::SetTimer {
                delay: *delay,
                timer_key: *timer_key,
            },
        }
    }
}

/// The action that answers the request at `request_address` with `value`.
pub fn reply<A, B>(request_address: MessageAddress, value: A) -> (action: RunnerAction<A, B>)
    ensures
        action == RunnerAction::<A, B>::SendMessage(
            Message::reply(request_address.reply_address(), value),
        ),
{
    RunnerAction::SendMessage(Message::new_reply(request_address.to_reply_address(), value))
}

/// The action that sends `value` as a request to `address`.
pub fn send<A, B>(address: MessageAddress, value: A) -> (action: RunnerAction<A, B>)
    ensures
        action == RunnerAction::<A, B>::SendMessage(Message::request(address, value)),
{
    RunnerAction::SendMessage(Message::new_request(address, value))
}

/// The action that sets a timer.
pub fn set_timer<A, B>(delay: u64, timer_key: B) -> (action: RunnerAction<A, B>)
    ensures
        action == (RunnerAction::<A, B>::SetTimer { delay, timer_key }),
{
    RunnerAction::SetTimer { delay, timer_key }
}

/// The envelopes that the actions send, in the order of the actions.
pub open spec fn sent_by<A, B>(actions: Seq<RunnerAction<A, B>>) -> Seq<Message<A>>
    decreases actions.len(),
{
    if actions.len() == 0 {
        Seq::empty()
    } else {
        match actions.last() {
            RunnerAction::SendMessage(message) => sent_by(actions.drop_last()).push(message),
            RunnerAction::SetTimer { .. } => sent_by(actions.drop_last()),
        }
    }
}

/// The timers that the actions set when they are carried out at `now`.
pub open spec fn timers_set_by<A, B>(actions: Seq<RunnerAction<A, B>>, now: u64) -> Multiset<
    Record<B>,
>
    decreases actions.len(),
{
    if actions.len() == 0 {
        Multiset::empty()
    } else {
        match actions.last() {
            RunnerAction::SendMessage(_) => timers_set_by(actions.drop_last(), now),
            RunnerAction::SetTimer { delay, timer_key } => timers_set_by(
                actions.drop_last(),
                now,
            ).insert(Record { timestamp: (now + delay) as u64, value: timer_key }),
        }
    }
}

/// Every timer that the actions set at `now` has a deadline that the clock
/// can show.
pub open spec fn deadlines_in_range<A, B>(actions: Seq<RunnerAction<A, B>>, now: u64) -> bool {
    forall|i: int|
        0 <= i < actions.len() ==> (#[trigger] actions[i] matches RunnerAction::SetTimer {
            delay,
            ..
        } ==> now + delay <= u64::MAX)
}

/// Carries out one action: an envelope goes to the end of the outbox, a
/// timer is set `delay` after `now`.
pub fn execute_action<A, B>(
    outbox: &mut Vec<Message<A>>,
    timer: &mut Timer<B>,
    now: u64,
    action: RunnerAction<A, B>,
)
    requires
        old(timer).wf(),
        action matches RunnerAction::SetTimer { delay, .. } ==> now + delay <= u64::MAX,
    ensures
        final(timer).wf(),
        match action {
            RunnerAction::SendMessage(message) => {
                &&& final(outbox)@ == old(outbox)@.push(message)
                &&& final(timer)@ == old(timer)@
            },
            RunnerAction::SetTimer { delay, timer_key } => {
                &&& final(outbox)@ == old(outbox)@
                &&& final(timer)@ == old(timer)@.insert(
                    Record { timestamp: (now + delay) as u64, value: timer_key },
                )
            },
        },
{
    match action {
        RunnerAction::SendMessage(message) => {
            outbox.push(message);
        },
        RunnerAction::SetTimer { delay, timer_key } => {
            timer.add_timer(now + delay, timer_key);
        },
    }
}

/// Carries out the actions of one handler call, in their order.
pub fn execute_actions<A, B>(
    outbox: &mut Vec<Message<A>>,
    timer: &mut Timer<B>,
    now: u64,
    actions: Vec<RunnerAction<A, B>>,
)
    requires
        old(timer).wf(),
        deadlines_in_range(actions@, now),
    ensures
        final(timer).wf(),
        final(outbox)@ == old(outbox)@ + sent_by(actions@),
        final(timer)@ == old(timer)@.add(timers_set_by(actions@, now)),
{
    let ghost all = actions@;
    proof {
        assert(all.take(0) =~= Seq::<RunnerAction<A, B>>::empty());
        assert(outbox@ =~= old(outbox)@ + sent_by(all.take(0)));
        assert(timer@ =~= old(timer)@.add(timers_set_by(all.take(0), now)));
    }
    for action in it: actions
        invariant
            timer.wf(),
            it.seq() == all,
            deadlines_in_range(all, now),
            outbox@ == old(outbox)@ + sent_by(all.take(it.index() as int)),
            timer@ == old(timer)@.add(timers_set_by(all.take(it.index() as int), now)),
    {
        let ghost done = all.take(it.index() as int);
        let ghost next = all.take(it.index() + 1);
        proof {
            assert(all[it.index() as int] == action);
            assert(next.drop_last() =~= done);
            assert(next.last() == action);
        }
        execute_action(outbox, timer, now, action);
        proof {
            assert(outbox@ =~= old(outbox)@ + sent_by(next));
            assert(timer@ =~= old(timer)@.add(timers_set_by(next, now)));
        }
    }
    proof {
        assert(all.take(all.len() as int) =~= all);
    }
}

/// The handshake: the first envelope of a node must be a request with an
/// `Init` body. The node takes its identity from it and answers `InitOk`
/// to the sender. Any other first envelope is an error.
pub open spec fn init_outcome(
    message: Message<InitMessage>,
    outcome: Result<(ThisNode, Message<InitMessage>), Error>,
) -> bool {
    match message.value() {
        InitMessage::Init { node_id, node_ids } => {
            &&& outcome matches Ok(started)
            &&& started.0.node_id() == node_id
            &&& started.0.node_ids() == node_ids
            &&& started.0.next_message_id() == 1
            &&& started.1 == Message::reply(
                message.address_of().reply_address(),
                InitMessage::InitOk,
            )
        },
        InitMessage::InitOk => {
            &&& outcome matches Err(Error::UnexpectedMessage(text))
            &&& text@ == "InitOk"@
        },
    }
}

/// Runs the handshake on the first envelope that the node has read.
pub fn init(message: Message<InitMessage>) -> (outcome: Result<
    (ThisNode, Message<InitMessage>),
    Error,
>)
    ensures
        init_outcome(message, outcome),
{
    let (body, address) = message.body_and_address();
    match body {
        InitMessage::Init { node_id, node_ids } => {
            let init_response = Message::new_reply(address.to_reply_address(), InitMessage::InitOk);
            Ok((ThisNode::new(node_id, node_ids), init_response))
        },
        InitMessage::InitOk => Err(Error::UnexpectedMessage("InitOk".to_owned())),
    }
}

/// What the loop does with the result of a handler call made at `now`: it
/// carries out the actions, or passes the error on and touches nothing.
pub open spec fn applied<A, B>(
    result: Result<Vec<RunnerAction<A, B>>, Error>,
    now: u64,
    timers_before: Multiset<Record<B>>,
    timers_after: Multiset<Record<B>>,
    outcome: Result<Vec<Message<A>>, Error>,
) -> bool {
    match result {
        Ok(actions) => {
            &&& outcome matches Ok(outbox)
            &&& outbox@ == sent_by(actions@)
            &&& timers_after == timers_before.add(timers_set_by(actions@, now))
        },
        Err(e) => outcome == Err::<Vec<Message<A>>, Error>(e) && timers_after == timers_before,
    }
}

/// A handler together with its timers: the state of the event loop.
pub struct Runner<A: Actor> {
    actor: A,
    timer: Timer<A::TimerKey>,
}

impl<A: Actor> Runner<A> {
    /// The handler.
    pub closed spec fn actor(&self) -> A {
        self.actor
    }

    /// The timers that are set.
    pub closed spec fn timers(&self) -> Multiset<Record<A::TimerKey>> {
        self.timer@
    }

    /// Handler and timers are in order.
    pub closed spec fn wf(&self) -> bool {
        self.actor.wf() && self.timer.wf()
    }

    /// Starts the handler of a node that has finished its handshake. No
    /// timer is set yet.
    pub fn new(this_node: ThisNode) -> (started: Result<Runner<A>, Error>)
        ensures
            match started {
                Ok(runner) => {
                    &&& runner.wf()
                    &&& A::starts(this_node, Ok(runner.actor()))
                    &&& runner.timers() == Multiset::<Record<A::TimerKey>>::empty()
                },
                Err(e) => A::starts(this_node, Err(e)),
            },
    {
        match A::new(this_node) {
            Ok(actor) => Ok(Runner { actor, timer: Timer::new() }),
            Err(e) => Err(e),
        }
    }

    /// Takes out the timers that are due at `now` and returns their keys,
    /// earlier deadlines first.
    pub fn expired_timers(&mut self, now: u64) -> (keys: Vec<A::TimerKey>)
        requires
            old(self).wf(),
        ensures
            final(self).wf(),
            final(self).actor() == old(self).actor(),
            final(self).timers() == pending(old(self).timers(), now),
            keys@.len() == due(old(self).timers(), now).len(),
            exists|fired: Seq<Record<A::TimerKey>>|
                {
                    &&& fired.to_multiset() == due(old(self).timers(), now)
                    &&& in_time_order(fired)
                    &&& keys@ == #[trigger] values_of(fired)
                },
    {
        self.timer.remove_expired_timers(now)
    }

    /// Hands a timer that has fired to the handler and carries out what the
    /// handler asks for. The envelopes to write come back in their order.
    pub fn timeout(&mut self, timer_key: A::TimerKey, now: u64) -> (outcome: Result<
        Vec<Message<A::Msg>>,
        Error,
    >)
        requires
            old(self).wf(),
            now <= TIME_HORIZON,
        ensures
            final(self).wf(),
            exists|result: Result<Vec<RunnerAction<A::Msg, A::TimerKey>>, Error>|
                {
                    &&& #[trigger] A::handles_timeout(
                        old(self).actor(),
                        timer_key,
                        now,
                        final(self).actor(),
                        result,
                    )
                    &&& applied(result, now, old(self).timers(), final(self).timers(), outcome)
                },
    {
        let result = self.actor.on_timeout(timer_key, now);
        let ghost seen = result;
        let ghost mid = self.actor();
        assert(A::handles_timeout(old(self).actor(), timer_key, now, mid, seen));
        match result {
            Ok(actions) => {
                let mut outbox: Vec<Message<A::Msg>> = Vec::new();
                execute_actions(&mut outbox, &mut self.timer, now, actions);
                assert(outbox@ =~= sent_by(actions@));
                assert(self.actor() == mid);
                let outcome = Ok(outbox);
                assert(applied(seen, now, old(self).timers(), self.timers(), outcome));
                outcome
            },
            Err(e) => {
                Err(e)
            },
        }
    }

    /// How long the loop waits for input at `now`: until the next deadline,
    /// but never less than `MINIMUM_READ_DURATION`.
    pub fn read_timeout(&self, now: u64) -> (wait: u64)
        requires
            self.wf(),
        ensures
            wait >= MINIMUM_READ_DURATION,
            self.timers().len() == 0 ==> wait == MINIMUM_READ_DURATION,
            self.timers().len() > 0 ==> exists|r: Record<A::TimerKey>|
                #[trigger] is_earliest(self.timers(), r) && wait == (if time_until(
                    r.timestamp,
                    now,
                ) > MINIMUM_READ_DURATION {
                    time_until(r.timestamp, now)
                } else {
                    MINIMUM_READ_DURATION
                }),
    {
        let until_next = self.timer.duration_until_next_timer(now);
        if until_next > MINIMUM_READ_DURATION {
            until_next
        } else {
            MINIMUM_READ_DURATION
        }
    }

    /// Hands an envelope that has arrived to the handler and carries out
    /// what the handler asks for. The envelopes to write come back in their
    /// order.
    pub fn request(&mut self, message: Message<A::Msg>, now: u64) -> (outcome: Result<
        Vec<Message<A::Msg>>,
        Error,
    >)
        requires
            old(self).wf(),
            now <= TIME_HORIZON,
        ensures
            final(self).wf(),
            exists|result: Result<Vec<RunnerAction<A::Msg, A::TimerKey>>, Error>|
                {
                    &&& #[trigger] A::handles_request(
                        old(self).actor(),
                        message,
                        now,
                        final(self).actor(),
                        result,
                    )
                    &&& applied(result, now, old(self).timers(), final(self).timers(), outcome)
                },
    {
        let result = self.actor.on_request(message, now);
        let ghost seen = result;
        let ghost mid = self.actor();
        assert(A::handles_request(old(self).actor(), message, now, mid, seen));
        match result {
            Ok(actions) => {
                let mut outbox: Vec<Message<A::Msg>> = Vec::new();
                execute_actions(&mut outbox, &mut self.timer, now, actions);
                assert(outbox@ =~= sent_by(actions@));
                assert(self.actor() == mid);
                let outcome = Ok(outbox);
                assert(applied(seen, now, old(self).timers(), self.timers(), outcome));
                outcome
            },
            Err(e) => {
                Err(e)
            },
        }
    }
}

} // verus!
