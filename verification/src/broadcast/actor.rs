//! The broadcast engine: it remembers every value it has seen, hands new
//! values on in batches to the next nodes on a ring, and hands a value on
//! again for as long as too few nodes are known to have it.

use crate::broadcast::message::BroadcastMessage;
use crate::broadcast::message::BroadcastModel;
use crate::broadcast::message::MessageValue;
use crate::broadcast::message::MessageValueModel;
use crate::broadcast::overlay::is_ring;
use crate::broadcast::overlay::position_of;
use crate::broadcast::overlay::ring_of;
use crate::broadcast::overlay::successors;
use crate::broadcast::overlay::successors_of;
use crate::common::actor::Actor;
use crate::common::error::Error;
use crate::common::error::ErrorModel;
use crate::common::heap::is_earliest;
use crate::common::heap::RecordHeap;
use crate::common::message::message::Envelope;
use crate::common::message::message::Message;
use crate::common::message::message::MessageBody;
use crate::common::message::MessageId;
use crate::common::message::NodeId;
use crate::common::record::Record;
use crate::common::runner::deadlines_in_range;
use crate::common::runner::reply;
use crate::common::runner::send;
use crate::common::runner::set_timer;
use crate::common::runner::ActionModel;
use crate::common::runner::RunnerAction;
use crate::common::runner::TIME_HORIZON;
use crate::common::text::decimal;
use crate::common::text::push_signed_decimal;
use crate::common::this_node::ThisNode;
use crate::common::timer::values_of;
use std::collections::BTreeSet;
use std::collections::HashMap;
use vstd::multiset::Multiset;
use vstd::prelude::*;
use vstd::string::StringExecFns;

verus! {

broadcast use vstd::std_specs::hash::group_hash_axioms;

/// How long, in milliseconds, a value may stay without enough nodes known
/// to have it before it is handed on again.
pub const MAX_ACK_DELAY: u64 = 4000;

/// To how many nodes a batch is handed on.
pub const NEXT_NODES: usize = 4;

/// How many envelopes a value may cost the cluster on its way round.
pub const TARGET_OPS_PER_BROADCAST: usize = 20;

/// How long, in milliseconds, a value waits at most for others to share its
/// batch.
pub const SINGLE_MESSAGE_DELAY: u64 = 1000;

/// The timers of the engine.
#[derive(Clone, Copy, Debug, PartialEq, Eq, Structural)]
pub enum TimerKey {
    /// Time to look at the batch again.
    SendBatch,
    /// Time to see whether enough nodes have the value.
    CheckAck(i64),
}

/// What the engine asks the loop to do, as a value.
pub type Action = ActionModel<BroadcastModel, TimerKey>;

/// The action that sets the timer `timer_key` to fire after `delay`.
pub open spec fn timer_action(delay: u64, timer_key: TimerKey) -> Action {
    ActionModel::SetTimer { delay, timer_key }
}

/// The engine as a value.
pub struct Engine {
    /// The node's own name.
    pub node: Seq<char>,
    /// The nodes that batches go to, in the order of the ring.
    pub next_nodes: Seq<Seq<char>>,
    /// From how many values on a batch goes out at once.
    pub batch_size: nat,
    /// The number of the next outbound envelope.
    pub next_message_id: u64,
    /// For each known value, the nodes that are known to have it.
    pub seen: Map<i64, Set<Seq<char>>>,
    /// The values that wait to be handed on, each with the time it began to
    /// wait.
    pub batch: Multiset<Record<i64>>,
}

impl Engine {
    /// What holds of the engine at all times: every value that waits is
    /// known and began to wait at a time that the clock can show, the nodes
    /// known to have a value are finitely many, and the engine hands on to
    /// `NEXT_NODES` nodes at most.
    pub open spec fn inv(self) -> bool {
        &&& forall|r: Record<i64>| self.batch.count(r) > 0 ==> self.seen.contains_key(r.value)
        &&& forall|r: Record<i64>| self.batch.count(r) > 0 ==> r.timestamp <= TIME_HORIZON
        &&& forall|v: i64| self.seen.contains_key(v) ==> (#[trigger] self.seen[v]).finite()
        &&& self.next_nodes.len() <= NEXT_NODES
    }

    /// The nodes known to have `v`.
    pub open spec fn peers(self, v: i64) -> Set<Seq<char>> {
        if self.seen.contains_key(v) {
            self.seen[v]
        } else {
            Set::empty()
        }
    }

    /// Whether no node is known yet to have `v`.
    pub open spec fn is_new(self, v: i64) -> bool {
        self.peers(v).len() == 0
    }

    /// The engine after it has learnt at `now` that `peer` has `v`: `peer`
    /// joins the nodes known to have `v`, and a value that is new begins to
    /// wait in the batch.
    pub open spec fn observe(self, peer: Seq<char>, v: i64, now: u64) -> Engine {
        Engine {
            seen: self.seen.insert(v, self.peers(v).insert(peer)),
            batch: if self.is_new(v) {
                self.batch.insert(Record { timestamp: now, value: v })
            } else {
                self.batch
            },
            ..self
        }
    }

    /// The actions that go with `observe`: a new value gets a timer that
    /// checks on it after `MAX_ACK_DELAY`.
    pub open spec fn observe_actions(self, v: i64) -> Seq<Action> {
        if self.is_new(v) {
            seq![timer_action(MAX_ACK_DELAY, TimerKey::CheckAck(v))]
        } else {
            Seq::empty()
        }
    }

    /// Whether the batch goes out at `now`: it holds `batch_size` values or
    /// more, or its oldest value has waited for `SINGLE_MESSAGE_DELAY`.
    pub open spec fn release_due(self, now: u64) -> bool {
        ||| self.batch.len() >= self.batch_size
        ||| exists|r: Record<i64>| #[trigger]
            is_earliest(self.batch, r) && now - r.timestamp >= SINGLE_MESSAGE_DELAY
    }

    /// Whether the node has fewer numbers left than a fan-out takes.
    pub open spec fn ids_short(self) -> bool {
        u64::MAX - self.next_message_id < self.next_nodes.len()
    }

    /// One request to each of the next nodes, each carrying `values` as a
    /// batch, numbered in the order of the ring from the node's next number.
    pub open spec fn fan_out(self, values: Seq<i64>) -> Seq<Action> {
        Seq::new(
            self.next_nodes.len(),
            |i: int|
                ActionModel::SendMessage(
                    Envelope {
                        src: self.node,
                        dest: self.next_nodes[i],
                        body: MessageBody::Request {
                            msg_id: MessageId((self.next_message_id + i) as u64),
                            value: BroadcastModel::Broadcast {
                                message: MessageValueModel::Batch(values),
                            },
                        },
                    },
                ),
        )
    }

    /// The engine after a fan-out: nothing waits, and the numbers of the
    /// fan-out are used up.
    pub open spec fn after_fan_out(self) -> Engine {
        Engine {
            batch: Multiset::empty(),
            next_message_id: (self.next_message_id + self.next_nodes.len()) as u64,
            ..self
        }
    }

    /// What a look at the batch at `now` does. `actions` is `None` where the
    /// node has run out of numbers.
    ///
    /// - Nothing waits: nothing happens.
    /// - The batch is due: all its values go out, in some order, in one
    ///   request to each of the next nodes.
    /// - Otherwise a `SendBatch` timer is set for the moment at which the
    ///   oldest value will have waited for `SINGLE_MESSAGE_DELAY`.
    pub open spec fn released(self, now: u64, after: Engine, actions: Option<Seq<Action>>) -> bool {
        if self.batch.len() == 0 {
            after == self && actions == Some(Seq::<Action>::empty())
        } else if self.release_due(now) {
            if self.ids_short() {
                after == self && actions is None
            } else {
                &&& after == self.after_fan_out()
                &&& exists|records: Seq<Record<i64>>|
                    records.to_multiset() == self.batch && actions == Some(
                        #[trigger] self.fan_out(values_of(records)),
                    )
            }
        } else {
            &&& after == self
            &&& exists|r: Record<i64>| #[trigger]
                is_earliest(self.batch, r) && actions == Some(
                    seq![
                        timer_action(
                            (r.timestamp + SINGLE_MESSAGE_DELAY - now) as u64,
                            TimerKey::SendBatch,
                        ),
                    ],
                )
        }
    }

    /// The engine after it has learnt at `now` that `peer` has each of
    /// `values`, one after the other.
    pub open spec fn observe_all(self, peer: Seq<char>, values: Seq<i64>, now: u64) -> Engine
        decreases values.len(),
    {
        if values.len() == 0 {
            self
        } else {
            self.observe_all(peer, values.drop_last(), now).observe(peer, values.last(), now)
        }
    }

    /// The actions that go with `observe_all`, in the order of the values.
    pub open spec fn observe_all_actions(self, peer: Seq<char>, values: Seq<i64>, now: u64) -> Seq<
        Action,
    >
        decreases values.len(),
    {
        if values.len() == 0 {
            Seq::empty()
        } else {
            self.observe_all_actions(peer, values.drop_last(), now) + self.observe_all(
                peer,
                values.drop_last(),
                now,
            ).observe_actions(values.last())
        }
    }

    /// The engine with `v` put back into the batch at `now`.
    pub open spec fn requeue(self, v: i64, now: u64) -> Engine {
        Engine { batch: self.batch.insert(Record { timestamp: now, value: v }), ..self }
    }

    /// What the engine does with an envelope that arrives at `now`.
    ///
    /// - A `Broadcast` of one value: the sender is noted to have the value,
    ///   the batch is looked at, and the sender gets a `BroadcastOk`.
    /// - A `Broadcast` of a batch: the sender is noted to have each value,
    ///   and the batch is looked at. There is no answer.
    /// - A `Read`: the sender gets the known values in a `ReadOk`.
    /// - A `Topology`: the sender gets a `TopologyOk`, and nothing changes.
    /// - Any acknowledgement: an error that names it.
    pub open spec fn request_step(
        self,
        request: Envelope<BroadcastModel>,
        now: u64,
        after: Engine,
        outcome: Result<Seq<Action>, ErrorModel>,
    ) -> bool {
        match request.value() {
            BroadcastModel::Broadcast { message: MessageValueModel::Single(v) } => {
                exists|released: Option<Seq<Action>>| #[trigger]
                    self.observe(request.src, v, now).released(now, after, released) && outcome
                        == after_release(
                        self.observe_actions(v),
                        released,
                        seq![reply_action(request, BroadcastModel::BroadcastOk)],
                    )
            },
            BroadcastModel::Broadcast { message: MessageValueModel::Batch(values) } => {
                exists|released: Option<Seq<Action>>| #[trigger]
                    self.observe_all(request.src, values, now).released(now, after, released)
                        && outcome == after_release(
                        self.observe_all_actions(request.src, values, now),
                        released,
                        Seq::empty(),
                    )
            },
            BroadcastModel::Read => {
                &&& after == self
                &&& outcome == Ok::<Seq<Action>, ErrorModel>(
                    seq![reply_action(request, BroadcastModel::ReadOk { messages: self.seen.dom() })],
                )
            },
            BroadcastModel::Topology { .. } => {
                &&& after == self
                &&& outcome == Ok::<Seq<Action>, ErrorModel>(
                    seq![reply_action(request, BroadcastModel::TopologyOk)],
                )
            },
            BroadcastModel::BroadcastOk => {
                &&& after == self
                &&& outcome == Err::<Seq<Action>, ErrorModel>(
                    ErrorModel::UnexpectedMessage("BroadcastOk"@),
                )
            },
            BroadcastModel::TopologyOk => {
                &&& after == self
                &&& outcome == Err::<Seq<Action>, ErrorModel>(
                    ErrorModel::UnexpectedMessage("TopologyOk"@),
                )
            },
            BroadcastModel::ReadOk { .. } => {
                &&& after == self
                &&& outcome == Err::<Seq<Action>, ErrorModel>(
                    ErrorModel::UnexpectedMessage("ReadOk"@),
                )
            },
        }
    }

    /// What the engine does with a timer that fires at `now`.
    ///
    /// - `SendBatch`: the batch is looked at.
    /// - `CheckAck` of a value that is not known: an error.
    /// - `CheckAck` of a value that `NEXT_NODES` nodes or more are known to
    ///   have: nothing.
    /// - `CheckAck` of any other value: the value goes back into the batch,
    ///   the batch is looked at, and the check is set again.
    pub open spec fn timeout_step(
        self,
        timer_key: TimerKey,
        now: u64,
        after: Engine,
        outcome: Result<Seq<Action>, ErrorModel>,
    ) -> bool {
        match timer_key {
            TimerKey::SendBatch => {
                exists|released: Option<Seq<Action>>| #[trigger]
                    self.released(now, after, released) && outcome == after_release(
                        Seq::empty(),
                        released,
                        Seq::empty(),
                    )
            },
            TimerKey::CheckAck(v) => {
                if !self.seen.contains_key(v) {
                    &&& after == self
                    &&& outcome == Err::<Seq<Action>, ErrorModel>(
                        ErrorModel::UnexpectedError(unknown_value_text(v)),
                    )
                } else if self.seen[v].len() >= NEXT_NODES {
                    after == self && outcome == Ok::<Seq<Action>, ErrorModel>(Seq::empty())
                } else {
                    exists|released: Option<Seq<Action>>| #[trigger]
                        self.requeue(v, now).released(now, after, released) && outcome
                            == after_release(
                            Seq::empty(),
                            released,
                            seq![timer_action(MAX_ACK_DELAY, TimerKey::CheckAck(v))],
                        )
                }
            },
        }
    }
}

/// The action that answers `request` with `value`.
pub open spec fn reply_action(request: Envelope<BroadcastModel>, value: BroadcastModel) -> Action {
    ActionModel::SendMessage(request.answer(value))
}

/// The outcome of a handler call that looked at the batch: the actions
/// before the look, those of the look and those after it, or the error of a
/// node that has run out of numbers.
pub open spec fn after_release(
    before: Seq<Action>,
    released: Option<Seq<Action>>,
    after: Seq<Action>,
) -> Result<Seq<Action>, ErrorModel> {
    match released {
        Some(actions) => Ok(before + actions + after),
        None => Err(ErrorModel::UnexpectedError(out_of_ids_text())),
    }
}

/// The text of the error for a check on a value that is not known.
pub open spec fn unknown_value_text(v: i64) -> Seq<char> {
    "There must be nodes for the message "@ + decimal(v as int)
}

/// The model of what a handler returned.
pub open spec fn outcome_model(
    result: Result<Vec<RunnerAction<BroadcastMessage, TimerKey>>, Error>,
) -> Result<Seq<Action>, ErrorModel> {
    match result {
        Ok(actions) => Ok(actions.deep_view()),
        Err(e) => Err(e.deep_view()),
    }
}

/// The text of the error that a node without numbers left reports.
pub open spec fn out_of_ids_text() -> Seq<char> {
    "No message id is left"@
}

/// The model of what a look at the batch returned.
pub open spec fn release_outcome(
    result: Result<Vec<RunnerAction<BroadcastMessage, TimerKey>>, Error>,
) -> Option<Seq<Action>> {
    match result {
        Ok(actions) => Some(actions.deep_view()),
        Err(_) => None,
    }
}

/// The broadcast engine of one node.
pub struct BroadcastActor {
    batch_size: usize,
    this_node: ThisNode,
    next_nodes: Vec<NodeId>,
    seen_messages: HashMap<i64, Vec<NodeId>>,
    batched_messages: RecordHeap<i64>,
}

impl View for BroadcastActor {
    type V = Engine;

    closed spec fn view(&self) -> Engine {
        Engine {
            node: self.this_node.node_id()@,
            next_nodes: self.next_nodes.deep_view(),
            batch_size: self.batch_size as nat,
            next_message_id: self.this_node.next_message_id(),
            seen: Map::new(
                |v: i64| self.seen_messages@.contains_key(v),
                |v: i64| self.seen_messages@[v].deep_view().to_set(),
            ),
            batch: self.batched_messages@,
        }
    }
}

impl BroadcastActor {
    /// A well-formed engine satisfies the invariant of its model.
    pub proof fn lemma_wf_inv(&self)
        requires
            self.wf(),
        ensures
            self@.inv(),
    {
        assert forall|v: i64| self@.seen.contains_key(v) implies (#[trigger] self@.seen[v]).finite() by {
            vstd::seq_lib::seq_to_set_is_finite(self.seen_messages@[v].deep_view());
        }
    }

    /// Whether `peers` holds a node of the name of `node_id`.
    fn holds(peers: &Vec<NodeId>, node_id: &NodeId) -> (found: bool)
        ensures
            found == peers.deep_view().contains(node_id@),
    {
        let mut i: usize = 0;
        while i < peers.len()
            invariant
                i <= peers@.len(),
                forall|k: int| 0 <= k < i ==> peers.deep_view()[k] != node_id@,
            decreases peers@.len() - i,
        {
            if peers[i] == *node_id {
                assert(peers.deep_view()[i as int] == node_id@);
                return true;
            }
            i += 1;
        }
        false
    }

    /// Notes at `now` that the node `node_id` has the value `message`.
    pub fn observe_message(&mut self, node_id: NodeId, message: i64, now: u64) -> (actions: Vec<
        RunnerAction<BroadcastMessage, TimerKey>,
    >)
        requires
            old(self).wf(),
            now <= TIME_HORIZON,
        ensures
            final(self).wf(),
            final(self)@ == old(self)@.observe(node_id@, message, now),
            actions.deep_view() == old(self)@.observe_actions(message),
            deadlines_in_range(actions@, now),
    {
        let ghost before = self@;
        let ghost seen_before = self.seen_messages@;
        let mut peers = match self.seen_messages.remove(&message) {
            Some(peers) => peers,
            None => Vec::new(),
        };
        let prev_nodes_count = peers.len();
        proof {
            peers.deep_view().unique_seq_to_set();
            assert(peers.deep_view().to_set() =~= before.peers(message));
        }
        let ghost names_before = peers.deep_view();
        if !Self::holds(&peers, &node_id) {
            peers.push(node_id);
            proof {
                assert(peers.deep_view() =~= names_before.push(node_id@));
                names_before.lemma_push_to_set_commute(node_id@);
            }
        } else {
            proof {
                assert(names_before.to_set().insert(node_id@) =~= names_before.to_set());
            }
        }
        self.seen_messages.insert(message, peers);
        proof {
            assert(self.seen_messages@ =~= seen_before.insert(message, self.seen_messages@[message]));
            assert forall|v: i64| self.seen_messages@.contains_key(v) implies (
            #[trigger] self.seen_messages@[v]).deep_view().no_duplicates() by {
                if v != message {
                    assert(seen_before.contains_key(v));
                }
            }
        }
        if prev_nodes_count == 0 {
            self.batched_messages.push(Record { timestamp: now, value: message });
            let actions = vec![set_timer(MAX_ACK_DELAY, TimerKey::CheckAck(message))];
            proof {
                assert(self@.seen =~= before.observe(node_id@, message, now).seen);
                assert(actions.deep_view() =~= before.observe_actions(message));
            }
            actions
        } else {
            let actions = Vec::new();
            proof {
                assert(self@.seen =~= before.observe(node_id@, message, now).seen);
                assert(actions.deep_view() =~= before.observe_actions(message));
            }
            actions
        }
    }

    /// The values of the records, in the order of the records.
    fn values(records: &Vec<Record<i64>>) -> (values: Vec<i64>)
        ensures
            values@ == values_of(records@),
    {
        let mut values: Vec<i64> = Vec::new();
        let mut i: usize = 0;
        while i < records.len()
            invariant
                i <= records@.len(),
                values@ == values_of(records@.take(i as int)),
            decreases records@.len() - i,
        {
            values.push(records[i].value);
            assert(values@ =~= values_of(records@.take(i + 1)));
            i += 1;
        }
        assert(records@.take(i as int) =~= records@);
        values
    }

    /// A copy of a batch of values.
    fn copy(values: &Vec<i64>) -> (copy: Vec<i64>)
        ensures
            copy@ == values@,
    {
        let mut copy: Vec<i64> = Vec::new();
        let mut i: usize = 0;
        while i < values.len()
            invariant
                i <= values@.len(),
                copy@ == values@.take(i as int),
            decreases values@.len() - i,
        {
            copy.push(values[i]);
            assert(copy@ =~= values@.take(i + 1));
            i += 1;
        }
        assert(values@.take(i as int) =~= values@);
        copy
    }

    /// The values that the node knows.
    pub fn known_values(&self) -> (values: BTreeSet<i64>)
        ensures
            values@ == self@.seen.dom(),
    {
        let mut values: BTreeSet<i64> = BTreeSet::new();
        let keys = self.seen_messages.keys();
        proof {
            assert(self@.seen.dom() =~= self.seen_messages@.dom());
        }
        for value in it: keys
            invariant
                it.seq().unref().to_set() == self.seen_messages@.dom(),
                values@ == it.seq().unref().take(it.index() as int).to_set(),
                it.index() == it.seq().len() ==> values@ == self.seen_messages@.dom(),
        {
            proof {
                let done = it.seq().unref().take(it.index() as int);
                let next = it.seq().unref().take(it.index() + 1);
                assert(next =~= done.push(*value));
                done.lemma_push_to_set_commute(*value);
                assert(it.index() + 1 == it.seq().len() ==> next =~= it.seq().unref());
            }
            values.insert(*value);
        }
        values
    }

    /// Looks at the batch at `now`: hands it on where it is due, and
    /// otherwise sets a timer for the moment at which it will be. Fails,
    /// and changes nothing, where a fan-out is due and the node has not
    /// enough numbers left for it.
    pub fn get_broadcast_message(&mut self, now: u64) -> (result: Result<
        Vec<RunnerAction<BroadcastMessage, TimerKey>>,
        Error,
    >)
        requires
            old(self).wf(),
            now <= TIME_HORIZON,
        ensures
            final(self).wf(),
            old(self)@.released(now, final(self)@, release_outcome(result)),
            result matches Err(e) ==> e.deep_view() == ErrorModel::UnexpectedError(
                out_of_ids_text(),
            ),
            result matches Ok(actions) ==> deadlines_in_range(actions@, now),
    {
        let ghost before = self@;
        let oldest: u64 = match self.batched_messages.peek() {
            Some(record) => record.timestamp,
            None => {
                let actions: Vec<RunnerAction<BroadcastMessage, TimerKey>> = Vec::new();
                assert(actions.deep_view() =~= Seq::<Action>::empty());
                return Ok(actions);
            },
        };
        let ghost top: Record<i64> = choose|r: Record<i64>|
            is_earliest(before.batch, r) && r.timestamp == oldest;
        assert(before.batch.count(top) > 0);
        let waited_enough = now >= oldest && now - oldest >= SINGLE_MESSAGE_DELAY;
        proof {
            assert(waited_enough == (exists|r: Record<i64>| #[trigger]
                is_earliest(before.batch, r) && now - r.timestamp >= SINGLE_MESSAGE_DELAY)) by {
                if waited_enough {
                    assert(is_earliest(before.batch, top));
                }
            }
        }
        if waited_enough || self.batched_messages.len() >= self.batch_size {
            if self.this_node.remaining_message_ids() < self.next_nodes.len() as u64 {
                return Err(Error::UnexpectedError("No message id is left".to_owned()));
            }
            let records = self.batched_messages.take_all();
            let messages = Self::values(&records);
            let mut actions: Vec<RunnerAction<BroadcastMessage, TimerKey>> = Vec::new();
            let mut i: usize = 0;
            while i < self.next_nodes.len()
                invariant
                    i <= self.next_nodes@.len(),
                    self.next_nodes == old(self).next_nodes,
                    self.seen_messages == old(self).seen_messages,
                    self.batch_size == old(self).batch_size,
                    self.batched_messages@ == Multiset::<Record<i64>>::empty(),
                    self.batched_messages.wf(),
                    self.this_node.node_id() == old(self).this_node.node_id(),
                    self.this_node.node_ids() == old(self).this_node.node_ids(),
                    self.this_node.next_message_id() == before.next_message_id + i,
                    before.next_message_id + self.next_nodes@.len() <= u64::MAX,
                    before == old(self)@,
                    actions@.len() == i,
                    actions.deep_view() == before.fan_out(messages@).take(i as int),
                decreases self.next_nodes@.len() - i,
            {
                let address = self.this_node.new_destination_address(self.next_nodes[i].clone());
                let action = send(
                    address,
                    BroadcastMessage::Broadcast { message: MessageValue::Batch(Self::copy(&messages)) },
                );
                let ghost so_far = actions.deep_view();
                actions.push(action);
                proof {
                    assert(actions.deep_view() =~= so_far.push(action.deep_view()));
                    assert(action.deep_view() == before.fan_out(messages@)[i as int]);
                    assert(actions.deep_view() =~= before.fan_out(messages@).take(i + 1));
                }
                i += 1;
            }
            proof {
                assert(actions.deep_view() =~= before.fan_out(values_of(records@)));
                assert(self@.seen =~= before.seen);
                assert(self@ == before.after_fan_out());
                assert forall|k: int| 0 <= k < actions@.len() implies !(
                #[trigger] actions@[k] is SetTimer) by {
                    assert(actions.deep_view()[k] is SendMessage);
                }
            }
            Ok(actions)
        } else {
            let delay: u64 = oldest + SINGLE_MESSAGE_DELAY - now;
            let actions = vec![set_timer(delay, TimerKey::SendBatch)];
            proof {
                assert(is_earliest(before.batch, top));
                assert(actions.deep_view() =~= seq![timer_action(delay, TimerKey::SendBatch)]);
            }
            Ok(actions)
        }
    }
}

/// The text of the error for a node whose own name is not among the names
/// of the cluster.
pub open spec fn missing_node_text(name: Seq<char>) -> Seq<char> {
    "Could not find node_id '"@ + name + "' in node_ids"@
}

/// From how many values on a batch goes out at once in a cluster of
/// `cluster_size` nodes: `cluster_size * NEXT_NODES /
/// TARGET_OPS_PER_BROADCAST`, rounded up.
pub open spec fn batch_size_for(cluster_size: nat) -> nat {
    ((cluster_size * NEXT_NODES + TARGET_OPS_PER_BROADCAST - 1) / (
    TARGET_OPS_PER_BROADCAST as int)) as nat
}

/// The engine of the node `node` at the place `at` of `ring`, before it has
/// seen any value.
pub open spec fn initial_engine(
    node: Seq<char>,
    ring: Seq<Seq<char>>,
    at: int,
    next_message_id: u64,
) -> Engine {
    Engine {
        node,
        next_nodes: successors(ring, at, NEXT_NODES as nat),
        batch_size: batch_size_for(ring.len()),
        next_message_id,
        seen: Map::empty(),
        batch: Multiset::empty(),
    }
}

impl Actor for BroadcastActor {
    type Msg = BroadcastMessage;

    type TimerKey = TimerKey;

    /// The batch is a heap, the engine hands on to `NEXT_NODES` nodes at
    /// most, no node is listed twice for a value, and every value that
    /// waits is known and began to wait at a time that the clock can show.
    closed spec fn wf(&self) -> bool {
        &&& self.batched_messages.wf()
        &&& self.next_nodes@.len() <= NEXT_NODES
        &&& forall|v: i64|
            self.seen_messages@.contains_key(v) ==> (
            #[trigger] self.seen_messages@[v]).deep_view().no_duplicates()
        &&& forall|r: Record<i64>| #[trigger]
            self.batched_messages@.count(r) > 0 ==> self.seen_messages@.contains_key(r.value)
                && r.timestamp <= TIME_HORIZON
    }

    /// A node whose name is among the names of the cluster gets an engine
    /// that has seen nothing and hands on to its successors on the ring of
    /// the cluster. Any other node gets an error.
    open spec fn starts(this_node: ThisNode, started: Result<Self, Error>) -> bool {
        let cluster = this_node.node_ids().deep_view();
        let node = this_node.node_id()@;
        if cluster.contains(node) {
            &&& started matches Ok(actor)
            &&& exists|ring: Seq<Seq<char>>, at: int|
                {
                    &&& is_ring(ring, cluster)
                    &&& 0 <= at < ring.len()
                    &&& ring[at] == node
                    &&& actor@ == #[trigger] initial_engine(
                        node,
                        ring,
                        at,
                        this_node.next_message_id(),
                    )
                }
        } else {
            &&& started matches Err(e)
            &&& e.deep_view() == ErrorModel::UnexpectedError(missing_node_text(node))
        }
    }

    /// `Engine::request_step`, on the models of the engine, of the envelope
    /// and of the result.
    open spec fn handles_request(
        before: Self,
        request: Message<BroadcastMessage>,
        now: u64,
        after: Self,
        result: Result<Vec<RunnerAction<BroadcastMessage, TimerKey>>, Error>,
    ) -> bool {
        before@.request_step(request.deep_view(), now, after@, outcome_model(result))
    }

    /// `Engine::timeout_step`, on the models of the engine and of the
    /// result.
    open spec fn handles_timeout(
        before: Self,
        timer_key: TimerKey,
        now: u64,
        after: Self,
        result: Result<Vec<RunnerAction<BroadcastMessage, TimerKey>>, Error>,
    ) -> bool {
        before@.timeout_step(timer_key, now, after@, outcome_model(result))
    }

    /// Builds the engine of a node: finds the node's place on the ring of
    /// the cluster and takes the nodes after it as the nodes to hand on to.
    fn new(this_node: ThisNode) -> (started: Result<Self, Error>) {
        let ring = ring_of(this_node.node_ids());
        let at = match position_of(&ring, this_node.node_id()) {
            Some(at) => at,
            None => {
                let mut text = String::from_str("Could not find node_id '");
                text.append(this_node.node_id().as_str());
                text.append("' in node_ids");
                proof {
                    let cluster = this_node.node_ids().deep_view();
                    let node = this_node.node_id()@;
                    assert(!ring.deep_view().to_set().contains(node));
                    assert(!cluster.to_set().contains(node));
                    assert(!cluster.contains(node));
                }
                return Err(Error::UnexpectedError(text));
            },
        };
        let next_nodes = successors_of(&ring, at, NEXT_NODES);
        let batch_size: usize = (((ring.len() as u128) * (NEXT_NODES as u128) + (
        TARGET_OPS_PER_BROADCAST as u128) - 1) / (TARGET_OPS_PER_BROADCAST as u128)) as usize;
        let ghost cluster = this_node.node_ids().deep_view();
        let ghost node = this_node.node_id()@;
        let ghost next_message_id = this_node.next_message_id();
        let actor = BroadcastActor {
            batch_size,
            this_node,
            next_nodes,
            seen_messages: HashMap::new(),
            batched_messages: RecordHeap::new(),
        };
        proof {
            assert(ring.deep_view().contains(node));
            assert(cluster.to_set().contains(node));
            assert(actor@.seen =~= Map::<i64, Set<Seq<char>>>::empty());
            assert(actor@ == initial_engine(node, ring.deep_view(), at as int, next_message_id));
            assert(actor.next_nodes@.len() == actor.next_nodes.deep_view().len());
            assert(actor.wf());
        }
        Ok(actor)
    }

    /// Handles an envelope as `Engine::request_step` says.
    fn on_request(&mut self, request: Message<BroadcastMessage>, now: u64) -> (result: Result<
        Vec<RunnerAction<BroadcastMessage, TimerKey>>,
        Error,
    >) {
        let ghost before = self@;
        let ghost asked = request.deep_view();
        let (body, address) = request.body_and_address();
        match body {
            BroadcastMessage::Broadcast { message: MessageValue::Single(message) } => {
                let mut responses = self.observe_message(address.src.clone(), message, now);
                let ghost observed = responses.deep_view();
                let ghost mid = self@;
                match self.get_broadcast_message(now) {
                    Ok(mut released) => {
                        let ghost handed_on = released.deep_view();
                        let ghost kept = responses@;
                        let ghost extra = released@;
                        responses.append(&mut released);
                        let answer = reply(address, BroadcastMessage::BroadcastOk);
                        responses.push(answer);
                        proof {
                            assert(responses.deep_view() =~= observed + handed_on
                                + seq![reply_action(asked, BroadcastModel::BroadcastOk)]);
                            assert(mid.released(now, self@, Some(handed_on)));
                            lemma_in_range_joined(kept, extra, answer, now);
                        }
                        Ok(responses)
                    },
                    Err(e) => {
                        proof {
                            assert(mid.released(now, self@, None));
                        }
                        Err(e)
                    },
                }
            },
            BroadcastMessage::Broadcast { message: MessageValue::Batch(messages) } => {
                let mut responses: Vec<RunnerAction<BroadcastMessage, TimerKey>> = Vec::new();
                let mut i: usize = 0;
                proof {
                    assert(messages@.take(0) =~= Seq::<i64>::empty());
                    assert(responses.deep_view() =~= before.observe_all_actions(
                        address.src@,
                        messages@.take(0),
                        now,
                    ));
                }
                while i < messages.len()
                    invariant
                        i <= messages@.len(),
                        self.wf(),
                        now <= TIME_HORIZON,
                        self@ == before.observe_all(address.src@, messages@.take(i as int), now),
                        responses.deep_view() == before.observe_all_actions(
                            address.src@,
                            messages@.take(i as int),
                            now,
                        ),
                        deadlines_in_range(responses@, now),
                    decreases messages@.len() - i,
                {
                    let mut observed = self.observe_message(address.src.clone(), messages[i], now);
                    proof {
                        let done = messages@.take(i as int);
                        let next = messages@.take(i + 1);
                        assert(next.drop_last() =~= done);
                        assert(next.last() == messages@[i as int]);
                    }
                    let ghost so_far = responses.deep_view();
                    let ghost added = observed.deep_view();
                    let ghost kept = responses@;
                    let ghost extra = observed@;
                    responses.append(&mut observed);
                    proof {
                        assert(responses.deep_view() =~= so_far + added);
                        assert(responses@ =~= kept + extra);
                    }
                    i += 1;
                }
                proof {
                    assert(messages@.take(i as int) =~= messages@);
                }
                let ghost observed = responses.deep_view();
                let ghost mid = self@;
                match self.get_broadcast_message(now) {
                    Ok(mut released) => {
                        let ghost handed_on = released.deep_view();
                        let ghost kept = responses@;
                        let ghost extra = released@;
                        responses.append(&mut released);
                        proof {
                            assert(responses.deep_view() =~= observed + handed_on + Seq::<
                                Action,
                            >::empty());
                            assert(responses@ =~= kept + extra);
                            assert(mid.released(now, self@, Some(handed_on)));
                        }
                        Ok(responses)
                    },
                    Err(e) => {
                        proof {
                            assert(mid.released(now, self@, None));
                        }
                        Err(e)
                    },
                }
            },
            BroadcastMessage::Read => {
                let messages = self.known_values();
                let responses = vec![reply(address, BroadcastMessage::ReadOk { messages })];
                proof {
                    assert(responses.deep_view() =~= seq![
                        reply_action(asked, BroadcastModel::ReadOk { messages: before.seen.dom() }),
                    ]);
                }
                Ok(responses)
            },
            BroadcastMessage::Topology { .. } => {
                let responses = vec![reply(address, BroadcastMessage::TopologyOk)];
                proof {
                    assert(responses.deep_view() =~= seq![
                        reply_action(asked, BroadcastModel::TopologyOk),
                    ]);
                }
                Ok(responses)
            },
            BroadcastMessage::BroadcastOk => Err(
                Error::UnexpectedMessage("BroadcastOk".to_owned()),
            ),
            BroadcastMessage::TopologyOk => Err(Error::UnexpectedMessage("TopologyOk".to_owned())),
            BroadcastMessage::ReadOk { .. } => Err(Error::UnexpectedMessage("ReadOk".to_owned())),
        }
    }

    /// Handles a timer as `Engine::timeout_step` says.
    fn on_timeout(&mut self, timer_key: TimerKey, now: u64) -> (result: Result<
        Vec<RunnerAction<BroadcastMessage, TimerKey>>,
        Error,
    >) {
        let ghost before = self@;
        match timer_key {
            TimerKey::SendBatch => {
                let result = self.get_broadcast_message(now);
                proof {
                    assert(before.released(now, self@, release_outcome(result)));
                    if result is Ok {
                        let actions = result->Ok_0;
                        assert(Seq::<Action>::empty() + actions.deep_view() + Seq::<
                            Action,
                        >::empty() =~= actions.deep_view());
                    }
                }
                result
            },
            TimerKey::CheckAck(message) => {
                let covered = match self.seen_messages.get(&message) {
                    Some(peers) => {
                        proof {
                            peers.deep_view().unique_seq_to_set();
                        }
                        peers.len() >= NEXT_NODES
                    },
                    None => {
                        let mut text = String::from_str("There must be nodes for the message ");
                        push_signed_decimal(&mut text, message as i128);
                        return Err(Error::UnexpectedError(text));
                    },
                };
                if covered {
                    let responses: Vec<RunnerAction<BroadcastMessage, TimerKey>> = Vec::new();
                    assert(responses.deep_view() =~= Seq::<Action>::empty());
                    return Ok(responses);
                }
                self.batched_messages.push(Record { timestamp: now, value: message });
                let ghost mid = self@;
                proof {
                    assert(mid.seen =~= before.seen);
                    assert(mid == before.requeue(message, now));
                }
                match self.get_broadcast_message(now) {
                    Ok(mut responses) => {
                        let ghost handed_on = responses.deep_view();
                        let ghost kept = responses@;
                        let again = set_timer(MAX_ACK_DELAY, TimerKey::CheckAck(message));
                        responses.push(again);
                        proof {
                            assert(responses.deep_view() =~= Seq::<Action>::empty() + handed_on
                                + seq![timer_action(MAX_ACK_DELAY, TimerKey::CheckAck(message))]);
                            assert(mid.released(now, self@, Some(handed_on)));
                            assert(responses@ =~= kept.push(again));
                        }
                        Ok(responses)
                    },
                    Err(e) => {
                        proof {
                            assert(mid.released(now, self@, None));
                        }
                        Err(e)
                    },
                }
            },
        }
    }
}

/// Joining two lists of actions whose deadlines are in range, and an
/// envelope after them, gives a list whose deadlines are in range.
proof fn lemma_in_range_joined(
    first: Seq<RunnerAction<BroadcastMessage, TimerKey>>,
    second: Seq<RunnerAction<BroadcastMessage, TimerKey>>,
    last: RunnerAction<BroadcastMessage, TimerKey>,
    now: u64,
)
    requires
        deadlines_in_range(first, now),
        deadlines_in_range(second, now),
        last is SendMessage,
    ensures
        deadlines_in_range((first + second).push(last), now),
{
    let all = (first + second).push(last);
    assert forall|i: int| 0 <= i < all.len() implies (#[trigger] all[i] matches RunnerAction::SetTimer {
        delay,
        ..
    } ==> now + delay <= u64::MAX) by {
        if i < first.len() {
            assert(all[i] == first[i]);
        } else if i < first.len() + second.len() {
            assert(all[i] == second[i - first.len()]);
        }
    }
}

} // verus!
