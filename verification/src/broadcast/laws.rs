//! What holds of the broadcast engine in every state and at every step.

use crate::broadcast::actor::initial_engine;
use crate::broadcast::actor::Action;
use crate::broadcast::actor::BroadcastActor;
use crate::broadcast::actor::Engine;
use crate::broadcast::actor::TimerKey;
use crate::broadcast::actor::timer_action;
use crate::broadcast::actor::MAX_ACK_DELAY;
use crate::broadcast::actor::NEXT_NODES;
use crate::broadcast::actor::SINGLE_MESSAGE_DELAY;
use crate::common::heap::is_earliest;
use crate::common::runner::TIME_HORIZON;
use crate::broadcast::message::BroadcastModel;
use crate::broadcast::message::MessageValueModel;
use crate::broadcast::overlay::increasing;
use crate::broadcast::overlay::is_ring;
use crate::broadcast::overlay::lemma_increasing_distinct;
use crate::broadcast::overlay::lemma_successors;
use crate::broadcast::overlay::successor_count;
use crate::broadcast::overlay::successors;
use crate::common::actor::Actor;
use crate::common::error::ErrorModel;
use crate::common::message::message::Envelope;
use crate::common::message::message::MessageBody;
use crate::common::order::lemma_name_lt_total;
use crate::common::order::name_lt;
use crate::common::record::Record;
use crate::common::runner::ActionModel;
use crate::common::this_node::ThisNode;
use vstd::prelude::*;

verus! {

/// A cluster has one ring only.
pub proof fn lemma_ring_unique(a: Seq<Seq<char>>, b: Seq<Seq<char>>, cluster: Seq<Seq<char>>)
    requires
        is_ring(a, cluster),
        is_ring(b, cluster),
    ensures
        a == b,
    decreases a.len(),
{
    lemma_increasing_distinct(a);
    lemma_increasing_distinct(b);
    assert(a.len() == b.len());
    if a.len() > 0 {
        assert(b.to_set().contains(a[0]));
        assert(a.to_set().contains(b[0]));
        let k = choose|k: int| 0 <= k < b.len() && b[k] == a[0];
        let m = choose|m: int| 0 <= m < a.len() && a[m] == b[0];
        lemma_name_lt_total(a[0], b[0]);
        if k > 0 {
            assert(name_lt(b[0], b[k]));
        }
        if m > 0 {
            assert(name_lt(a[0], a[m]));
        }
        assert(a[0] == b[0]);
        let a1 = a.drop_first();
        let b1 = b.drop_first();
        assert(increasing(a1)) by {
            assert forall|i: int, j: int| 0 <= i < j < a1.len() implies name_lt(a1[i], a1[j]) by {
                assert(name_lt(a[i + 1], a[j + 1]));
            }
        }
        assert(increasing(b1)) by {
            assert forall|i: int, j: int| 0 <= i < j < b1.len() implies name_lt(b1[i], b1[j]) by {
                assert(name_lt(b[i + 1], b[j + 1]));
            }
        }
        assert forall|name: Seq<char>| a1.to_set().contains(name) <==> b1.to_set().contains(
            name,
        ) by {
            if a1.contains(name) {
                let i = choose|i: int| 0 <= i < a1.len() && a1[i] == name;
                assert(a[i + 1] == name);
                assert(name_lt(a[0], a[i + 1]));
                lemma_name_lt_total(a[0], name);
                assert(b.to_set().contains(name));
                let j = choose|j: int| 0 <= j < b.len() && b[j] == name;
                assert(j > 0);
                assert(b1[j - 1] == name);
            }
            if b1.contains(name) {
                let i = choose|i: int| 0 <= i < b1.len() && b1[i] == name;
                assert(b[i + 1] == name);
                assert(name_lt(b[0], b[i + 1]));
                lemma_name_lt_total(b[0], name);
                assert(a.to_set().contains(name));
                let j = choose|j: int| 0 <= j < a.len() && a[j] == name;
                assert(j > 0);
                assert(a1[j - 1] == name);
            }
        }
        assert(a1.to_set() =~= b1.to_set());
        lemma_ring_unique(a1, b1, a1);
        assert(a =~= seq![a[0]] + a1);
        assert(b =~= seq![b[0]] + b1);
    } else {
        assert(a =~= b);
    }
}

/// A new engine hands on to as many nodes as `NEXT_NODES` allows, or to all
/// the other nodes of the cluster where they are fewer, to none of them
/// twice and never to itself.
pub proof fn lemma_next_nodes_of_new_engine(this_node: ThisNode, actor: BroadcastActor)
    requires
        BroadcastActor::starts(this_node, Ok(actor)),
        this_node.node_ids().deep_view().contains(this_node.node_id()@),
    ensures
        actor@.next_nodes.len() == successor_count(
            this_node.node_ids().deep_view().to_set().len(),
            NEXT_NODES as nat,
        ),
        !actor@.next_nodes.contains(this_node.node_id()@),
        actor@.next_nodes.no_duplicates(),
        forall|i: int|
            0 <= i < actor@.next_nodes.len() ==> this_node.node_ids().deep_view().contains(
                #[trigger] actor@.next_nodes[i],
            ),
        actor@.inv(),
{
    let cluster = this_node.node_ids().deep_view();
    let node = this_node.node_id()@;
    let (ring, at) = choose|ring: Seq<Seq<char>>, at: int|
        {
            &&& is_ring(ring, cluster)
            &&& 0 <= at < ring.len()
            &&& ring[at] == node
            &&& actor@ == #[trigger] initial_engine(node, ring, at, this_node.next_message_id())
        };
    lemma_successors(ring, at, NEXT_NODES as nat);
    let next = successors(ring, at, NEXT_NODES as nat);
    assert forall|i: int| 0 <= i < next.len() implies cluster.contains(#[trigger] next[i]) by {
        assert(ring.contains(next[i]));
        assert(ring.to_set().contains(next[i]));
        assert(cluster.to_set().contains(next[i]));
    }
}

/// A value that has been observed is known, and whatever was known before
/// still is.
pub proof fn lemma_observe_knows(e: Engine, peer: Seq<char>, v: i64, now: u64, w: i64)
    ensures
        e.observe(peer, v, now).seen.contains_key(v),
        e.observe(peer, v, now).seen[v].contains(peer),
        e.seen.contains_key(w) ==> e.observe(peer, v, now).seen.contains_key(w),
{
}

/// Observing keeps the invariant.
pub proof fn lemma_observe_keeps_inv(e: Engine, peer: Seq<char>, v: i64, now: u64)
    requires
        e.inv(),
        now <= TIME_HORIZON,
    ensures
        e.observe(peer, v, now).inv(),
{
    let after = e.observe(peer, v, now);
    assert forall|w: i64| after.seen.contains_key(w) implies (#[trigger] after.seen[w]).finite() by {
        if w != v {
            assert(e.seen[w].finite());
        }
    }
}

/// Once a node is known to have a value, hearing of the value again puts
/// nothing into the batch and sets no timer, whoever reports it.
pub proof fn lemma_observe_twice(e: Engine, first: Seq<char>, second: Seq<char>, v: i64, now: u64, later: u64)
    requires
        e.inv(),
    ensures
        !e.observe(first, v, now).is_new(v),
        e.observe(first, v, now).observe(second, v, later).batch == e.observe(first, v, now).batch,
        e.observe(first, v, now).observe_actions(v) == Seq::<Action>::empty(),
{
    let once = e.observe(first, v, now);
    assert(e.peers(v).finite()) by {
        if e.seen.contains_key(v) {
            assert(e.seen[v].finite());
        }
    }
    assert(once.peers(v) == e.peers(v).insert(first));
    assert(once.peers(v).len() > 0);
}

/// Observing a list of values keeps the invariant and what was known, and
/// makes each value of the list known.
pub proof fn lemma_observe_all(e: Engine, peer: Seq<char>, values: Seq<i64>, now: u64)
    requires
        e.inv(),
        now <= TIME_HORIZON,
    ensures
        e.observe_all(peer, values, now).inv(),
        forall|w: i64| e.seen.contains_key(w) ==> e.observe_all(peer, values, now).seen.contains_key(w),
        forall|i: int|
            0 <= i < values.len() ==> e.observe_all(peer, values, now).seen.contains_key(
                #[trigger] values[i],
            ),
        e.observe_all(peer, values, now).next_message_id == e.next_message_id,
        e.observe_all(peer, values, now).next_nodes == e.next_nodes,
        e.observe_all(peer, values, now).node == e.node,
        forall|i: int|
            0 <= i < e.observe_all_actions(peer, values, now).len()
                ==> #[trigger] e.observe_all_actions(peer, values, now)[i] is SetTimer,
    decreases values.len(),
{
    if values.len() > 0 {
        let rest = values.drop_last();
        lemma_observe_all(e, peer, rest, now);
        let mid = e.observe_all(peer, rest, now);
        lemma_observe_keeps_inv(mid, peer, values.last(), now);
        assert forall|i: int| 0 <= i < values.len() implies e.observe_all(
            peer,
            values,
            now,
        ).seen.contains_key(#[trigger] values[i]) by {
            if i < rest.len() {
                assert(rest[i] == values[i]);
            }
        }
    }
}

/// With nothing in the batch, a look at the batch sends nothing, sets no
/// timer and leaves the engine as it was.
pub proof fn lemma_empty_batch_releases_nothing(
    e: Engine,
    now: u64,
    after: Engine,
    actions: Option<Seq<Action>>,
)
    requires
        e.batch.len() == 0,
        e.released(now, after, actions),
    ensures
        after == e,
        actions == Some(Seq::<Action>::empty()),
{
}

/// A look at the batch keeps the invariant and the known values, never
/// lowers the next number, and sends requests only, numbered one after the
/// other from the next number on.
pub proof fn lemma_released(e: Engine, now: u64, after: Engine, actions: Option<Seq<Action>>)
    requires
        e.inv(),
        e.released(now, after, actions),
    ensures
        after.inv(),
        after.seen == e.seen,
        after.node == e.node,
        after.next_nodes == e.next_nodes,
        after.next_message_id >= e.next_message_id,
        actions matches Some(sent) ==> forall|i: int|
            0 <= i < sent.len() ==> (#[trigger] sent[i] matches ActionModel::SendMessage(envelope) ==> {
                &&& envelope.body matches MessageBody::Request { msg_id, .. }
                &&& e.next_message_id <= msg_id.0 < after.next_message_id
                &&& msg_id.0 == e.next_message_id + i
                &&& envelope.src == e.node
                &&& envelope.dest == e.next_nodes[i]
            }),
{
    if e.batch.len() > 0 && e.release_due(now) && !e.ids_short() {
        assert(after.batch.len() == 0);
        assert forall|r: Record<i64>| after.batch.count(r) > 0 implies after.seen.contains_key(
            r.value,
        ) by {}
    }
}

/// Where values wait and the batch is not due, a look at the batch sets one
/// `SendBatch` timer and nothing else. The timer fires at the moment at
/// which the oldest value will have waited for `SINGLE_MESSAGE_DELAY`, which
/// is a millisecond away at least.
pub proof fn lemma_send_batch_timer(e: Engine, now: u64, after: Engine, actions: Option<Seq<Action>>)
    requires
        e.inv(),
        e.batch.len() > 0,
        !e.release_due(now),
        e.released(now, after, actions),
    ensures
        after == e,
        actions is Some,
        actions->Some_0.len() == 1,
        actions->Some_0[0] matches ActionModel::SetTimer { delay, timer_key } && timer_key
            == TimerKey::SendBatch && delay >= 1 && exists|oldest: Record<i64>| #[trigger]
            is_earliest(e.batch, oldest) && now + delay == oldest.timestamp + SINGLE_MESSAGE_DELAY,
{
    let oldest = choose|r: Record<i64>| #[trigger]
        is_earliest(e.batch, r) && actions == Some(
            seq![
                timer_action(
                    (r.timestamp + SINGLE_MESSAGE_DELAY - now) as u64,
                    TimerKey::SendBatch,
                ),
            ],
        );
    assert(is_earliest(e.batch, oldest));
    assert(oldest.timestamp <= TIME_HORIZON);
    assert(!(now - oldest.timestamp >= SINGLE_MESSAGE_DELAY));
}

/// A `SendBatch` timer that fires while nothing waits does nothing.
pub proof fn lemma_send_batch_on_empty_batch(
    e: Engine,
    now: u64,
    after: Engine,
    outcome: Result<Seq<Action>, ErrorModel>,
)
    requires
        e.batch.len() == 0,
        e.timeout_step(TimerKey::SendBatch, now, after, outcome),
    ensures
        after == e,
        outcome == Ok::<Seq<Action>, ErrorModel>(Seq::empty()),
{
    let released = choose|released: Option<Seq<Action>>| #[trigger]
        e.released(now, after, released) && outcome == crate::broadcast::actor::after_release(
            Seq::empty(),
            released,
            Seq::empty(),
        );
    assert(Seq::<Action>::empty() + Seq::<Action>::empty() + Seq::<Action>::empty() =~= Seq::<
        Action,
    >::empty());
}

/// A check on a value that is not known is an error.
pub proof fn lemma_check_of_unknown_value(
    e: Engine,
    v: i64,
    now: u64,
    after: Engine,
    outcome: Result<Seq<Action>, ErrorModel>,
)
    requires
        !e.seen.contains_key(v),
        e.timeout_step(TimerKey::CheckAck(v), now, after, outcome),
    ensures
        outcome is Err,
        outcome->Err_0 is UnexpectedError,
        after == e,
{
}

/// A check on a value that fewer than `NEXT_NODES` nodes are known to have
/// puts the value back into the batch, looks at the batch and sets the
/// check again after `MAX_ACK_DELAY`: the value goes out with the batch now,
/// or waits in it.
pub proof fn lemma_check_hands_on_again(
    e: Engine,
    v: i64,
    now: u64,
    after: Engine,
    actions: Seq<Action>,
)
    requires
        e.inv(),
        now <= TIME_HORIZON,
        e.seen.contains_key(v),
        e.seen[v].len() < NEXT_NODES,
        e.timeout_step(TimerKey::CheckAck(v), now, after, Ok(actions)),
    ensures
        actions.len() > 0,
        actions.last() == timer_action(MAX_ACK_DELAY, TimerKey::CheckAck(v)),
        after.batch.count(Record { timestamp: now, value: v }) > 0 || exists|values: Seq<i64>|
            values.contains(v) && actions == #[trigger] e.fan_out(values).push(
                timer_action(MAX_ACK_DELAY, TimerKey::CheckAck(v)),
            ),
{
    let entry = Record { timestamp: now, value: v };
    let mid = e.requeue(v, now);
    let released = choose|released: Option<Seq<Action>>| #[trigger]
        mid.released(now, after, released) && Ok::<Seq<Action>, ErrorModel>(actions)
            == crate::broadcast::actor::after_release(
            Seq::empty(),
            released,
            seq![timer_action(MAX_ACK_DELAY, TimerKey::CheckAck(v))],
        );
    let sent = released->Some_0;
    assert(actions =~= sent.push(timer_action(MAX_ACK_DELAY, TimerKey::CheckAck(v))));
    assert(mid.batch.count(entry) > 0);
    assert(mid.batch.len() > 0);
    if mid.release_due(now) {
        let records = choose|records: Seq<Record<i64>>|
            records.to_multiset() == mid.batch && released == Some(
                #[trigger] mid.fan_out(crate::common::timer::values_of(records)),
            );
        vstd::seq_lib::to_multiset_contains(records, entry);
        let k = choose|k: int| 0 <= k < records.len() && records[k] == entry;
        let values = crate::common::timer::values_of(records);
        assert(values[k] == v);
        assert(mid.fan_out(values) =~= e.fan_out(values));
        assert(values.contains(v));
    }
}

/// Handling an envelope keeps the invariant and the known values, and
/// makes the values of a `Broadcast` known.
pub proof fn lemma_request_keeps_inv(
    e: Engine,
    request: Envelope<BroadcastModel>,
    now: u64,
    after: Engine,
    outcome: Result<Seq<Action>, ErrorModel>,
)
    requires
        e.inv(),
        now <= TIME_HORIZON,
        e.request_step(request, now, after, outcome),
    ensures
        after.inv(),
        forall|w: i64| e.seen.contains_key(w) ==> after.seen.contains_key(w),
        request.value() matches BroadcastModel::Broadcast { message: MessageValueModel::Single(v) }
            ==> after.seen.contains_key(v) && after.seen[v].contains(request.src),
        request.value() matches BroadcastModel::Broadcast { message: MessageValueModel::Batch(values) }
            ==> forall|i: int| 0 <= i < values.len() ==> after.seen.contains_key(#[trigger] values[i]),
        after.next_message_id >= e.next_message_id,
        after.node == e.node,
        after.next_nodes == e.next_nodes,
{
    match request.value() {
        BroadcastModel::Broadcast { message: MessageValueModel::Single(v) } => {
            let mid = e.observe(request.src, v, now);
            let released = choose|released: Option<Seq<Action>>| #[trigger]
                mid.released(now, after, released);
            lemma_observe_keeps_inv(e, request.src, v, now);
            lemma_released(mid, now, after, released);
        },
        BroadcastModel::Broadcast { message: MessageValueModel::Batch(values) } => {
            let mid = e.observe_all(request.src, values, now);
            let released = choose|released: Option<Seq<Action>>| #[trigger]
                mid.released(now, after, released);
            lemma_observe_all(e, request.src, values, now);
            lemma_released(mid, now, after, released);
        },
        _ => {},
    }
}

/// Handling a timer keeps the invariant and the known values.
pub proof fn lemma_timeout_keeps_inv(
    e: Engine,
    timer_key: TimerKey,
    now: u64,
    after: Engine,
    outcome: Result<Seq<Action>, ErrorModel>,
)
    requires
        e.inv(),
        now <= TIME_HORIZON,
        e.timeout_step(timer_key, now, after, outcome),
    ensures
        after.inv(),
        after.seen == e.seen,
        after.next_message_id >= e.next_message_id,
        after.node == e.node,
        after.next_nodes == e.next_nodes,
{
    match timer_key {
        TimerKey::SendBatch => {
            let released = choose|released: Option<Seq<Action>>| #[trigger]
                e.released(now, after, released);
            lemma_released(e, now, after, released);
        },
        TimerKey::CheckAck(v) => {
            if e.seen.contains_key(v) && e.seen[v].len() < NEXT_NODES {
                let mid = e.requeue(v, now);
                let released = choose|released: Option<Seq<Action>>| #[trigger]
                    mid.released(now, after, released);
                lemma_released(mid, now, after, released);
            }
        },
    }
}

/// One step of the engine: it handles an envelope or a timer, at a time
/// that the clock can show.
pub open spec fn step(before: Engine, after: Engine) -> bool {
    ||| exists|request: Envelope<BroadcastModel>, now: u64, outcome: Result<Seq<Action>, ErrorModel>|
        now <= TIME_HORIZON && #[trigger] before.request_step(request, now, after, outcome)
    ||| exists|timer_key: TimerKey, now: u64, outcome: Result<Seq<Action>, ErrorModel>|
        now <= TIME_HORIZON && #[trigger] before.timeout_step(timer_key, now, after, outcome)
}

/// Along any run of the engine the invariant holds, a value that is known
/// at one point is known at every later point, and the next number never
/// goes down.
pub proof fn lemma_run(states: Seq<Engine>, i: int, j: int)
    requires
        states.len() > 0,
        states[0].inv(),
        forall|k: int| 0 <= k < states.len() - 1 ==> step(states[k], #[trigger] states[k + 1]),
        0 <= i <= j < states.len(),
    ensures
        states[j].inv(),
        forall|v: i64| states[i].seen.contains_key(v) ==> states[j].seen.contains_key(v),
        forall|r: Record<i64>| states[j].batch.count(r) > 0 ==> states[j].seen.contains_key(r.value),
        states[i].next_message_id <= states[j].next_message_id,
    decreases j,
{
    if j > 0 {
        if i < j {
            lemma_run(states, i, j - 1);
        } else {
            lemma_run(states, 0, j - 1);
        }
        let before = states[j - 1];
        let after = states[j - 1 + 1];
        assert(step(before, after));
        if exists|request: Envelope<BroadcastModel>, now: u64, outcome: Result<Seq<Action>, ErrorModel>|
            now <= TIME_HORIZON && #[trigger] before.request_step(request, now, after, outcome) {
            let (request, now, outcome) = choose|
                request: Envelope<BroadcastModel>,
                now: u64,
                outcome: Result<Seq<Action>, ErrorModel>,
            | now <= TIME_HORIZON && #[trigger] before.request_step(request, now, after, outcome);
            lemma_request_keeps_inv(before, request, now, after, outcome);
        } else {
            let (timer_key, now, outcome) = choose|
                timer_key: TimerKey,
                now: u64,
                outcome: Result<Seq<Action>, ErrorModel>,
            | now <= TIME_HORIZON && #[trigger] before.timeout_step(timer_key, now, after, outcome);
            lemma_timeout_keeps_inv(before, timer_key, now, after, outcome);
        }
    }
}

/// The number of the request that an action sends, if it sends one.
pub open spec fn request_number(action: Action) -> Option<u64> {
    match action {
        ActionModel::SendMessage(envelope) => match envelope.body {
            MessageBody::Request { msg_id, .. } => Some(msg_id.0),
            MessageBody::Reply { .. } => None,
        },
        ActionModel::SetTimer { .. } => None,
    }
}

/// Of the envelopes that the engine sends when it handles an envelope, the
/// replies answer that envelope: they name its number and go from its
/// receiver back to its sender. The requests carry numbers of the node that
/// are used now for the first time, one after the other.
pub proof fn lemma_sent_on_request(
    e: Engine,
    request: Envelope<BroadcastModel>,
    now: u64,
    after: Engine,
    actions: Seq<Action>,
    i: int,
    j: int,
)
    requires
        e.inv(),
        now <= TIME_HORIZON,
        e.request_step(request, now, after, Ok(actions)),
        0 <= i <= j < actions.len(),
    ensures
        actions[i] matches ActionModel::SendMessage(envelope) ==> match envelope.body {
            MessageBody::Reply { in_reply_to, .. } => {
                &&& in_reply_to == request.id()
                &&& envelope.src == request.dest
                &&& envelope.dest == request.src
            },
            MessageBody::Request { msg_id, .. } => {
                &&& e.next_message_id <= msg_id.0 < after.next_message_id
                &&& envelope.src == e.node
            },
        },
        (i < j && request_number(actions[i]) is Some && request_number(actions[j]) is Some)
            ==> request_number(actions[i])->Some_0 < request_number(actions[j])->Some_0,
{
    match request.value() {
        BroadcastModel::Broadcast { message: MessageValueModel::Single(v) } => {
            let mid = e.observe(request.src, v, now);
            let released = choose|released: Option<Seq<Action>>| #[trigger]
                mid.released(now, after, released) && Ok::<Seq<Action>, ErrorModel>(actions)
                    == crate::broadcast::actor::after_release(
                    e.observe_actions(v),
                    released,
                    seq![crate::broadcast::actor::reply_action(request, BroadcastModel::BroadcastOk)],
                );
            lemma_observe_keeps_inv(e, request.src, v, now);
            lemma_released(mid, now, after, released);
            let sent = released->Some_0;
            let lead = e.observe_actions(v);
            assert(actions == lead + sent + seq![
                crate::broadcast::actor::reply_action(request, BroadcastModel::BroadcastOk),
            ]);
            if lead.len() <= i < lead.len() + sent.len() {
                assert(actions[i] == sent[i - lead.len()]);
            }
            if lead.len() <= j < lead.len() + sent.len() {
                assert(actions[j] == sent[j - lead.len()]);
            }
        },
        BroadcastModel::Broadcast { message: MessageValueModel::Batch(values) } => {
            let mid = e.observe_all(request.src, values, now);
            let released = choose|released: Option<Seq<Action>>| #[trigger]
                mid.released(now, after, released) && Ok::<Seq<Action>, ErrorModel>(actions)
                    == crate::broadcast::actor::after_release(
                    e.observe_all_actions(request.src, values, now),
                    released,
                    Seq::empty(),
                );
            lemma_observe_all(e, request.src, values, now);
            lemma_released(mid, now, after, released);
            let sent = released->Some_0;
            let lead = e.observe_all_actions(request.src, values, now);
            assert(actions == lead + sent + Seq::<Action>::empty());
            if i < lead.len() {
                assert(actions[i] == lead[i]);
            }
            if j < lead.len() {
                assert(actions[j] == lead[j]);
            }
            if lead.len() <= i < lead.len() + sent.len() {
                assert(actions[i] == sent[i - lead.len()]);
            }
            if lead.len() <= j < lead.len() + sent.len() {
                assert(actions[j] == sent[j - lead.len()]);
            }
        },
        _ => {},
    }
}

/// The envelopes that the engine sends when it handles a timer are
/// requests. They carry numbers of the node that are used now for the first
/// time, one after the other.
pub proof fn lemma_sent_on_timeout(
    e: Engine,
    timer_key: TimerKey,
    now: u64,
    after: Engine,
    actions: Seq<Action>,
    i: int,
    j: int,
)
    requires
        e.inv(),
        now <= TIME_HORIZON,
        e.timeout_step(timer_key, now, after, Ok(actions)),
        0 <= i <= j < actions.len(),
    ensures
        actions[i] matches ActionModel::SendMessage(envelope) ==> {
            &&& envelope.body matches MessageBody::Request { msg_id, .. }
            &&& e.next_message_id <= msg_id.0 < after.next_message_id
            &&& envelope.src == e.node
        },
        (i < j && request_number(actions[i]) is Some && request_number(actions[j]) is Some)
            ==> request_number(actions[i])->Some_0 < request_number(actions[j])->Some_0,
{
    match timer_key {
        TimerKey::SendBatch => {
            let released = choose|released: Option<Seq<Action>>| #[trigger]
                e.released(now, after, released) && Ok::<Seq<Action>, ErrorModel>(actions)
                    == crate::broadcast::actor::after_release(
                    Seq::empty(),
                    released,
                    Seq::empty(),
                );
            lemma_released(e, now, after, released);
            let sent = released->Some_0;
            assert(actions =~= sent);
        },
        TimerKey::CheckAck(v) => {
            if e.seen.contains_key(v) && e.seen[v].len() < NEXT_NODES {
                let mid = e.requeue(v, now);
                let released = choose|released: Option<Seq<Action>>| #[trigger]
                    mid.released(now, after, released) && Ok::<Seq<Action>, ErrorModel>(actions)
                        == crate::broadcast::actor::after_release(
                        Seq::empty(),
                        released,
                        seq![timer_action(crate::broadcast::actor::MAX_ACK_DELAY, TimerKey::CheckAck(v))],
                    );
                lemma_released(mid, now, after, released);
                let sent = released->Some_0;
                assert(actions =~= sent.push(
                    timer_action(crate::broadcast::actor::MAX_ACK_DELAY, TimerKey::CheckAck(v)),
                ));
                if i < sent.len() {
                    assert(actions[i] == sent[i]);
                }
                if j < sent.len() {
                    assert(actions[j] == sent[j]);
                }
            }
        },
    }
}

} // verus!
