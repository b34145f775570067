use gossip_glomers::broadcast::actor::BroadcastActor;
use gossip_glomers::broadcast::actor::TimerKey;
use gossip_glomers::broadcast::message::BroadcastMessage;
use gossip_glomers::broadcast::message::MessageValue;
use gossip_glomers::common::actor::Actor;
use gossip_glomers::common::codec::decode;
use gossip_glomers::common::codec::encode;
use gossip_glomers::common::error::Error;
use gossip_glomers::common::message::init::InitMessage;
use gossip_glomers::common::message::message::Message;
use gossip_glomers::common::message::message::MessageAddress;
use gossip_glomers::common::message::MessageId;
use gossip_glomers::common::message::NodeId;
use gossip_glomers::common::runner::init;
use gossip_glomers::common::runner::Runner;
use gossip_glomers::common::runner::RunnerAction;
use gossip_glomers::common::this_node::ThisNode;

fn started(line: &str) -> (Runner<BroadcastActor>, String) {
    let first: Message<InitMessage> = decode(line).unwrap();
    let (this_node, answer) = init(first).unwrap();
    (Runner::new(this_node).unwrap(), encode(&answer))
}

fn three_nodes() -> Runner<BroadcastActor> {
    let (runner, _) = started(
        r#"{"src":"c0","dest":"n0","body":{"msg_id":1,"type":"init","node_id":"n0","node_ids":["n0","n1","n2"]}}"#,
    );
    runner
}

fn lines(outbox: Vec<Message<BroadcastMessage>>) -> Vec<String> {
    outbox.iter().map(encode).collect()
}

fn deliver(runner: &mut Runner<BroadcastActor>, line: &str, now: u64) -> Vec<String> {
    lines(runner.request(decode(line).unwrap(), now).unwrap())
}

fn fire(runner: &mut Runner<BroadcastActor>, now: u64) -> Vec<String> {
    let mut written = Vec::new();
    for key in runner.expired_timers(now) {
        written.extend(lines(runner.timeout(key, now).unwrap()));
    }
    written
}

fn cluster(own: &str, count: usize) -> BroadcastActor {
    let names: Vec<NodeId> = (0..count).map(|i| NodeId::from(format!("n{:02}", i).as_str())).collect();
    BroadcastActor::new(ThisNode::new(NodeId::from(own), names)).unwrap()
}

fn broadcast_from(src: &str, dest: &str, id: u64, value: MessageValue) -> Message<BroadcastMessage> {
    Message::new_request(
        MessageAddress { src: NodeId::from(src), dest: NodeId::from(dest), msg_id: MessageId(id) },
        BroadcastMessage::Broadcast { message: value },
    )
}

fn fan_out_of(actions: &Vec<RunnerAction<BroadcastMessage, TimerKey>>) -> Vec<(String, u64, Vec<i64>)> {
    let mut sent = Vec::new();
    for action in actions {
        if let RunnerAction::SendMessage(message) = action {
            let line = encode(message);
            let back: Message<BroadcastMessage> = decode(&line).unwrap();
            let (body, address) = back.body_and_address();
            if let BroadcastMessage::Broadcast { message: MessageValue::Batch(values) } = body {
                sent.push((address.dest.to_string(), address.msg_id.0, values));
            }
        }
    }
    sent
}

#[test]
fn init_then_read() {
    let (mut runner, answer) = started(
        r#"{"src":"c0","dest":"n0","body":{"msg_id":1,"type":"init","node_id":"n0","node_ids":["n0","n1","n2"]}}"#,
    );
    assert_eq!(answer, r#"{"src":"n0","dest":"c0","body":{"in_reply_to":1,"type":"init_ok"}}"#);
    assert_eq!(
        deliver(&mut runner, r#"{"src":"c0","dest":"n0","body":{"msg_id":2,"type":"read"}}"#, 0),
        vec![r#"{"src":"n0","dest":"c0","body":{"in_reply_to":2,"type":"read_ok","messages":[]}}"#]
    );
}

#[test]
fn a_first_envelope_that_is_no_init_is_refused() {
    let first: Message<InitMessage> =
        decode(r#"{"src":"n0","dest":"c0","body":{"in_reply_to":1,"type":"init_ok"}}"#).unwrap();
    match init(first) {
        Err(Error::UnexpectedMessage(text)) => assert_eq!(text, "InitOk"),
        _ => panic!("the handshake accepted an acknowledgement"),
    }
}

#[test]
fn single_broadcast_from_client_triggers_fan_out() {
    let mut runner = three_nodes();
    assert_eq!(
        deliver(
            &mut runner,
            r#"{"src":"c0","dest":"n0","body":{"msg_id":3,"type":"broadcast","message":42}}"#,
            10
        ),
        vec![
            r#"{"src":"n0","dest":"n1","body":{"msg_id":1,"type":"broadcast","message":[42]}}"#,
            r#"{"src":"n0","dest":"n2","body":{"msg_id":2,"type":"broadcast","message":[42]}}"#,
            r#"{"src":"n0","dest":"c0","body":{"in_reply_to":3,"type":"broadcast_ok"}}"#,
        ]
    );
    assert_eq!(runner.expired_timers(4009), vec![]);
    assert_eq!(runner.expired_timers(4010), vec![TimerKey::CheckAck(42)]);
    assert_eq!(
        deliver(&mut runner, r#"{"src":"c0","dest":"n0","body":{"msg_id":4,"type":"read"}}"#, 11),
        vec![r#"{"src":"n0","dest":"c0","body":{"in_reply_to":4,"type":"read_ok","messages":[42]}}"#]
    );
}

#[test]
fn peer_batch_arrives_no_reply() {
    let mut runner = three_nodes();
    assert_eq!(
        deliver(
            &mut runner,
            r#"{"src":"n1","dest":"n0","body":{"msg_id":9,"type":"broadcast","message":[7,8]}}"#,
            0
        ),
        vec![
            r#"{"src":"n0","dest":"n1","body":{"msg_id":1,"type":"broadcast","message":[7,8]}}"#,
            r#"{"src":"n0","dest":"n2","body":{"msg_id":2,"type":"broadcast","message":[7,8]}}"#,
        ]
    );
    assert_eq!(
        deliver(&mut runner, r#"{"src":"c0","dest":"n0","body":{"msg_id":4,"type":"read"}}"#, 1),
        vec![r#"{"src":"n0","dest":"c0","body":{"in_reply_to":4,"type":"read_ok","messages":[7,8]}}"#]
    );
}

#[test]
fn topology_is_accepted_and_ignored() {
    let mut runner = three_nodes();
    assert_eq!(
        deliver(
            &mut runner,
            r#"{"src":"c0","dest":"n0","body":{"msg_id":4,"type":"topology","topology":{"n0":["n1"]}}}"#,
            0
        ),
        vec![r#"{"src":"n0","dest":"c0","body":{"in_reply_to":4,"type":"topology_ok"}}"#]
    );
    assert_eq!(
        deliver(
            &mut runner,
            r#"{"src":"c0","dest":"n0","body":{"msg_id":5,"type":"broadcast","message":1}}"#,
            0
        ),
        vec![
            r#"{"src":"n0","dest":"n1","body":{"msg_id":1,"type":"broadcast","message":[1]}}"#,
            r#"{"src":"n0","dest":"n2","body":{"msg_id":2,"type":"broadcast","message":[1]}}"#,
            r#"{"src":"n0","dest":"c0","body":{"in_reply_to":5,"type":"broadcast_ok"}}"#,
        ]
    );
}

#[test]
fn coverage_retry() {
    let mut runner = three_nodes();
    let first = deliver(
        &mut runner,
        r#"{"src":"c0","dest":"n0","body":{"msg_id":3,"type":"broadcast","message":100}}"#,
        0,
    );
    assert_eq!(first.len(), 3);
    assert_eq!(fire(&mut runner, 3999), Vec::<String>::new());
    assert_eq!(
        fire(&mut runner, 4000),
        vec![
            r#"{"src":"n0","dest":"n1","body":{"msg_id":3,"type":"broadcast","message":[100]}}"#,
            r#"{"src":"n0","dest":"n2","body":{"msg_id":4,"type":"broadcast","message":[100]}}"#,
        ]
    );
    assert_eq!(fire(&mut runner, 7999), Vec::<String>::new());
    assert_eq!(
        fire(&mut runner, 8000),
        vec![
            r#"{"src":"n0","dest":"n1","body":{"msg_id":5,"type":"broadcast","message":[100]}}"#,
            r#"{"src":"n0","dest":"n2","body":{"msg_id":6,"type":"broadcast","message":[100]}}"#,
        ]
    );
}

#[test]
fn coverage_retry_ends_once_enough_nodes_have_the_value() {
    let mut runner = three_nodes();
    for (at, peer) in ["c0", "n1", "n2", "c1"].iter().enumerate() {
        let line = format!(
            r#"{{"src":"{}","dest":"n0","body":{{"msg_id":{},"type":"broadcast","message":[100]}}}}"#,
            peer,
            at + 1
        );
        deliver(&mut runner, &line, 0);
    }
    assert_eq!(runner.expired_timers(4000), vec![TimerKey::CheckAck(100)]);
    assert_eq!(runner.timeout(TimerKey::CheckAck(100), 4000).unwrap(), vec![]);
    assert_eq!(runner.expired_timers(u64::MAX), vec![]);
}

#[test]
fn duplicate_observation_is_idempotent() {
    let mut runner = three_nodes();
    let first = deliver(
        &mut runner,
        r#"{"src":"c0","dest":"n0","body":{"msg_id":3,"type":"broadcast","message":5}}"#,
        0,
    );
    assert_eq!(first.len(), 3);
    assert_eq!(
        deliver(
            &mut runner,
            r#"{"src":"c0","dest":"n0","body":{"msg_id":4,"type":"broadcast","message":5}}"#,
            1
        ),
        vec![r#"{"src":"n0","dest":"c0","body":{"in_reply_to":4,"type":"broadcast_ok"}}"#]
    );
    assert_eq!(
        deliver(&mut runner, r#"{"src":"c0","dest":"n0","body":{"msg_id":5,"type":"read"}}"#, 2),
        vec![r#"{"src":"n0","dest":"c0","body":{"in_reply_to":5,"type":"read_ok","messages":[5]}}"#]
    );
    assert_eq!(runner.expired_timers(3999), vec![]);
    assert_eq!(runner.expired_timers(4001), vec![TimerKey::CheckAck(5)]);
}

#[test]
fn acknowledgements_are_refused() {
    let mut runner = three_nodes();
    for (line, name) in [
        (r#"{"src":"n1","dest":"n0","body":{"in_reply_to":1,"type":"broadcast_ok"}}"#, "BroadcastOk"),
        (r#"{"src":"n1","dest":"n0","body":{"in_reply_to":1,"type":"topology_ok"}}"#, "TopologyOk"),
        (
            r#"{"src":"n1","dest":"n0","body":{"in_reply_to":1,"type":"read_ok","messages":[]}}"#,
            "ReadOk",
        ),
    ] {
        match runner.request(decode(line).unwrap(), 0) {
            Err(Error::UnexpectedMessage(text)) => assert_eq!(text, name),
            _ => panic!("{} was accepted", name),
        }
    }
}

#[test]
fn a_check_on_an_unknown_value_is_an_error() {
    let mut actor = cluster("n00", 3);
    match actor.on_timeout(TimerKey::CheckAck(-77), 0) {
        Err(error) => {
            assert!(matches!(error, Error::UnexpectedError(_)));
            assert_eq!(
                error.to_string(),
                "Unexpected error: 'There must be nodes for the message -77'"
            );
        }
        Ok(_) => panic!("the check went through"),
    }
}

#[test]
fn send_batch_on_an_empty_batch_does_nothing() {
    let mut actor = cluster("n00", 3);
    assert_eq!(actor.on_timeout(TimerKey::SendBatch, 0).unwrap(), vec![]);
    assert_eq!(actor.get_broadcast_message(5).unwrap(), vec![]);
    assert_eq!(actor.on_timeout(TimerKey::SendBatch, u64::MAX / 2).unwrap(), vec![]);
}

#[test]
fn a_node_outside_its_cluster_does_not_start() {
    let this_node = ThisNode::new(NodeId::from("n9"), vec![NodeId::from("n0"), NodeId::from("n1")]);
    match BroadcastActor::new(this_node) {
        Err(error) => assert_eq!(
            error.to_string(),
            "Unexpected error: 'Could not find node_id 'n9' in node_ids'"
        ),
        Ok(_) => panic!("the node started"),
    }
}

#[test]
fn a_batch_waits_for_company_in_a_large_cluster() {
    // 25 nodes: a batch goes out from 5 values on, or after a second.
    let mut actor = cluster("n00", 25);
    let first = actor
        .on_request(broadcast_from("c1", "n00", 1, MessageValue::Batch(vec![10, 11])), 100)
        .unwrap();
    assert_eq!(
        first,
        vec![
            RunnerAction::SetTimer { delay: 4000, timer_key: TimerKey::CheckAck(10) },
            RunnerAction::SetTimer { delay: 4000, timer_key: TimerKey::CheckAck(11) },
            RunnerAction::SetTimer { delay: 1000, timer_key: TimerKey::SendBatch },
        ]
    );
    let second = actor
        .on_request(broadcast_from("c1", "n00", 2, MessageValue::Batch(vec![12])), 400)
        .unwrap();
    assert_eq!(
        second,
        vec![
            RunnerAction::SetTimer { delay: 4000, timer_key: TimerKey::CheckAck(12) },
            RunnerAction::SetTimer { delay: 700, timer_key: TimerKey::SendBatch },
        ]
    );
    assert_eq!(
        actor.on_timeout(TimerKey::SendBatch, 1099).unwrap(),
        vec![RunnerAction::SetTimer { delay: 1, timer_key: TimerKey::SendBatch }]
    );
    let released = actor.on_timeout(TimerKey::SendBatch, 1100).unwrap();
    let mut sent = fan_out_of(&released);
    assert_eq!(released.len(), 4);
    assert_eq!(sent.len(), 4);
    for (_, _, values) in sent.iter_mut() {
        values.sort();
    }
    assert_eq!(
        sent,
        vec![
            ("n01".to_string(), 1, vec![10, 11, 12]),
            ("n02".to_string(), 2, vec![10, 11, 12]),
            ("n03".to_string(), 3, vec![10, 11, 12]),
            ("n04".to_string(), 4, vec![10, 11, 12]),
        ]
    );
    assert_eq!(actor.on_timeout(TimerKey::SendBatch, 1100).unwrap(), vec![]);
}

#[test]
fn a_full_batch_goes_out_at_once() {
    let mut actor = cluster("n00", 25);
    let actions = actor
        .on_request(broadcast_from("n07", "n00", 1, MessageValue::Batch(vec![1, 2, 3, 4, 5])), 0)
        .unwrap();
    assert_eq!(actions.len(), 9);
    let sent = fan_out_of(&actions);
    assert_eq!(sent.len(), 4);
    assert_eq!(sent[0].2.len(), 5);
}

#[test]
fn the_ring_wraps_round_and_leaves_the_node_out() {
    let names = ["n3", "n1", "c0", "n2", "n0", "n1", "n5", "n4"];
    let node_ids: Vec<NodeId> = names.iter().map(|name| NodeId::from(*name)).collect();
    let mut actor = BroadcastActor::new(ThisNode::new(NodeId::from("n4"), node_ids)).unwrap();
    // Seven nodes: a batch goes out from ceil(7 * 4 / 20) = 2 values on.
    let actions = actor
        .on_request(broadcast_from("c9", "n4", 1, MessageValue::Batch(vec![1, 2])), 0)
        .unwrap();
    let sent = fan_out_of(&actions);
    let dests: Vec<&str> = sent.iter().map(|(dest, _, _)| dest.as_str()).collect();
    assert_eq!(dests, vec!["n5", "c0", "n0", "n1"]);
    let ids: Vec<u64> = sent.iter().map(|(_, id, _)| *id).collect();
    assert_eq!(ids, vec![1, 2, 3, 4]);
}

#[test]
fn a_node_alone_hands_on_to_nobody() {
    let mut actor = BroadcastActor::new(ThisNode::new(NodeId::from("n0"), vec![NodeId::from("n0")]))
        .unwrap();
    let actions =
        actor.on_request(broadcast_from("c9", "n0", 7, MessageValue::Single(1)), 0).unwrap();
    assert_eq!(actions.len(), 2);
    assert_eq!(actions[0], RunnerAction::SetTimer { delay: 4000, timer_key: TimerKey::CheckAck(1) });
    assert!(fan_out_of(&actions).is_empty());
}

#[test]
fn outbound_numbers_grow_across_fan_outs() {
    let mut actor = cluster("n02", 4);
    let mut last = 0;
    for round in 0..5 {
        let actions = actor
            .on_request(broadcast_from("c1", "n02", round, MessageValue::Single(round as i64)), round)
            .unwrap();
        for (_, id, _) in fan_out_of(&actions) {
            assert!(id > last);
            last = id;
        }
    }
    assert_eq!(last, 15);
}

#[test]
fn known_values_stay_known() {
    let mut actor = cluster("n00", 25);
    let mut expected = std::collections::BTreeSet::new();
    for (now, value) in [5i64, -3, 5, 900, 0].iter().enumerate() {
        actor
            .on_request(broadcast_from("c1", "n00", now as u64, MessageValue::Single(*value)), now as u64)
            .unwrap();
        expected.insert(*value);
        assert_eq!(actor.known_values(), expected);
        actor.on_timeout(TimerKey::SendBatch, now as u64 + 2000).unwrap();
        assert_eq!(actor.known_values(), expected);
    }
}
