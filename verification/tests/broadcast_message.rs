use std::collections::BTreeSet;

use gossip_glomers::broadcast::message::BroadcastMessage;
use gossip_glomers::broadcast::message::MessageValue;
use gossip_glomers::common::codec::decode;
use gossip_glomers::common::codec::encode;
use gossip_glomers::common::message::message::Message;
use gossip_glomers::common::message::message::MessageAddress;
use gossip_glomers::common::message::MessageId;
use gossip_glomers::common::message::NodeId;

fn request_address() -> MessageAddress {
    MessageAddress { src: NodeId::from("c0"), dest: NodeId::from("n0"), msg_id: MessageId(1) }
}

#[test]
fn should_deserialize_topology() {
    let str = r#"{"id":0,"src":"c0","dest":"n0","body":{
          "msg_id": 1,
          "type": "topology",
          "topology": {
            "n1": ["n2", "n3"],
            "n2": ["n1"],
            "n3": ["n1"]
          }
        }}"#;

    let result: Message<BroadcastMessage> = decode(str).unwrap();

    assert_eq!(
        result,
        Message::new_request(
            request_address(),
            BroadcastMessage::Topology {
                topology: vec![
                    (NodeId::from("n1"), vec![NodeId::from("n2"), NodeId::from("n3")]),
                    (NodeId::from("n2"), vec![NodeId::from("n1")]),
                    (NodeId::from("n3"), vec![NodeId::from("n1")]),
                ]
            }
        )
    );
}

#[test]
fn should_deserialize_broadcast() {
    let str = r#"{"id":0,"src":"c0","dest":"n0","body":{"msg_id": 1,"type": "broadcast","message": 1000}}"#;

    let result: Message<BroadcastMessage> = decode(str).unwrap();

    assert_eq!(
        result,
        Message::new_request(
            request_address(),
            BroadcastMessage::Broadcast { message: MessageValue::Single(1000) }
        )
    );
}

#[test]
fn should_serialize_broadcast() {
    let expected = r#"{"src":"c0","dest":"n0","body":{"msg_id":1,"type":"broadcast","message":1000}}"#;

    let result = encode(&Message::new_request(
        request_address(),
        BroadcastMessage::Broadcast { message: MessageValue::Single(1000) },
    ));

    assert_eq!(result, expected);
}

#[test]
fn should_deserialize_custom_broadcast() {
    let str = r#"{"src":"c0","dest":"n0","body":{"msg_id":1,"type":"broadcast","message":[1000]}}"#;

    let result: Message<BroadcastMessage> = decode(str).unwrap();

    assert_eq!(
        result,
        Message::new_request(
            request_address(),
            BroadcastMessage::Broadcast { message: MessageValue::Batch(vec![1000]) }
        )
    );
}

#[test]
fn should_serialize_custom_broadcast() {
    let expected = r#"{"src":"c0","dest":"n0","body":{"msg_id":1,"type":"broadcast","message":[1000]}}"#;

    let result = encode(&Message::new_request(
        request_address(),
        BroadcastMessage::Broadcast { message: MessageValue::Batch(vec![1000]) },
    ));

    assert_eq!(result, expected);
}

#[test]
fn should_deserialize_read() {
    let str = r#"{"id":0,"src":"c0","dest":"n0","body":{
          "msg_id": 1,
          "type": "read"
        }}"#;

    let result: Message<BroadcastMessage> = decode(str).unwrap();

    assert_eq!(result, Message::new_request(request_address(), BroadcastMessage::Read));
}

#[test]
fn should_serialize_topology_ok() {
    let expected = r#"{"src":"n0","dest":"c0","body":{"in_reply_to":1,"type":"topology_ok"}}"#;

    let result = encode(&Message::new_reply(
        request_address().to_reply_address(),
        BroadcastMessage::TopologyOk,
    ));

    assert_eq!(result, expected);
}

#[test]
fn should_deserialize_broadcast_ok() {
    let str = r#"{"src":"n0","dest":"c0","body":{"in_reply_to":1,"type":"broadcast_ok"}}"#;

    let result: Message<BroadcastMessage> = decode(str).unwrap();

    assert_eq!(
        result,
        Message::new_reply(request_address().to_reply_address(), BroadcastMessage::BroadcastOk)
    );
}

#[test]
fn should_serialize_broadcast_ok() {
    let expected = r#"{"src":"n0","dest":"c0","body":{"in_reply_to":1,"type":"broadcast_ok"}}"#;

    let result = encode(&Message::new_reply(
        request_address().to_reply_address(),
        BroadcastMessage::BroadcastOk,
    ));

    assert_eq!(result, expected);
}

#[test]
fn should_serialize_read_ok() {
    let expected =
        r#"{"src":"n0","dest":"c0","body":{"in_reply_to":1,"type":"read_ok","messages":[1,8,25,72]}}"#;

    let result = encode(&Message::new_reply(
        request_address().to_reply_address(),
        BroadcastMessage::ReadOk { messages: BTreeSet::from([1, 8, 72, 25]) },
    ));

    assert_eq!(result, expected);
}

#[test]
fn a_batch_of_one_value_reads_back_as_a_batch() {
    for v in [0, 1000, -1, i64::MAX, i64::MIN] {
        let message = Message::new_request(
            request_address(),
            BroadcastMessage::Broadcast { message: MessageValue::Batch(vec![v]) },
        );
        let line = encode(&message);
        let back: Message<BroadcastMessage> = decode(&line).unwrap();
        assert_eq!(back, message);
    }
}

#[test]
fn every_payload_reads_back_from_its_line() {
    let payloads = vec![
        BroadcastMessage::Topology {
            topology: vec![
                (NodeId::from("n0"), vec![]),
                (NodeId::from("n1"), vec![NodeId::from("n0"), NodeId::from("c\"9")]),
            ],
        },
        BroadcastMessage::TopologyOk,
        BroadcastMessage::Broadcast { message: MessageValue::Single(-42) },
        BroadcastMessage::Broadcast { message: MessageValue::Batch(vec![]) },
        BroadcastMessage::Broadcast { message: MessageValue::Batch(vec![3, 3, -1]) },
        BroadcastMessage::BroadcastOk,
        BroadcastMessage::Read,
        BroadcastMessage::ReadOk { messages: BTreeSet::new() },
        BroadcastMessage::ReadOk { messages: BTreeSet::from([7, -7, 0]) },
    ];
    for payload in payloads {
        let message = Message::new_reply(request_address().to_reply_address(), payload);
        let line = encode(&message);
        let back: Message<BroadcastMessage> = decode(&line).unwrap();
        assert_eq!(back, message);
        assert_eq!(encode(&back), line);
    }
}

#[test]
fn an_accepted_line_is_written_back_without_what_was_passed_over() {
    let line = r#"{"id":7,"dest":"n0","src":"c0","body":{"type":"broadcast","extra":true,"message":5,"msg_id":2}}"#;
    let message: Message<BroadcastMessage> = decode(line).unwrap();
    assert_eq!(
        encode(&message),
        r#"{"src":"c0","dest":"n0","body":{"msg_id":2,"type":"broadcast","message":5}}"#
    );
}

#[test]
fn a_body_with_both_numbers_is_a_request() {
    let line = r#"{"src":"c0","dest":"n0","body":{"in_reply_to":9,"msg_id":2,"type":"read"}}"#;
    let message: Message<BroadcastMessage> = decode(line).unwrap();
    assert_eq!(
        message,
        Message::new_request(
            MessageAddress { src: NodeId::from("c0"), dest: NodeId::from("n0"), msg_id: MessageId(2) },
            BroadcastMessage::Read
        )
    );
}

#[test]
fn lines_that_hold_no_envelope_are_refused() {
    let lines = [
        "",
        "not json",
        "[]",
        r#"{"src":"c0","dest":"n0"}"#,
        r#"{"src":"c0","dest":"n0","body":{"type":"read"}}"#,
        r#"{"src":"c0","dest":"n0","body":{"msg_id":1}}"#,
        r#"{"src":"c0","dest":"n0","body":{"msg_id":1,"type":"unknown"}}"#,
        r#"{"src":"c0","dest":"n0","body":{"msg_id":-1,"type":"read"}}"#,
        r#"{"src":"c0","dest":"n0","body":{"msg_id":1.5,"type":"read"}}"#,
        r#"{"src":"c0","dest":"n0","body":{"msg_id":"1","type":"read"}}"#,
        r#"{"src":7,"dest":"n0","body":{"msg_id":1,"type":"read"}}"#,
        r#"{"src":"c0","dest":"n0","body":{"msg_id":1,"type":"broadcast"}}"#,
        r#"{"src":"c0","dest":"n0","body":{"msg_id":1,"type":"broadcast","message":"5"}}"#,
        r#"{"src":"c0","dest":"n0","body":{"msg_id":1,"type":"broadcast","message":[1,"2"]}}"#,
        r#"{"src":"c0","dest":"n0","body":{"msg_id":1,"type":"broadcast","message":9223372036854775808}}"#,
        r#"{"src":"c0","dest":"n0","body":{"msg_id":1,"type":"topology"}}"#,
        r#"{"src":"c0","dest":"n0","body":{"msg_id":1,"type":"topology","topology":{"n1":"n2"}}}"#,
        r#"{"src":"c0","dest":"n0","body":{"msg_id":1,"type":"read_ok"}}"#,
    ];
    for line in lines {
        let result: Result<Message<BroadcastMessage>, _> = decode(line);
        assert!(
            matches!(result, Err(gossip_glomers::common::error::Error::Serde(_))),
            "{}",
            line
        );
    }
}

#[test]
fn read_ok_drops_repeated_values() {
    let line = r#"{"src":"n0","dest":"c0","body":{"in_reply_to":1,"type":"read_ok","messages":[3,1,3]}}"#;
    let message: Message<BroadcastMessage> = decode(line).unwrap();
    assert_eq!(
        message,
        Message::new_reply(
            request_address().to_reply_address(),
            BroadcastMessage::ReadOk { messages: BTreeSet::from([1, 3]) }
        )
    );
}
