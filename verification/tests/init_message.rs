use gossip_glomers::common::codec::decode;
use gossip_glomers::common::codec::encode;
use gossip_glomers::common::message::init::InitMessage;
use gossip_glomers::common::message::message::Message;
use gossip_glomers::common::message::message::MessageAddress;
use gossip_glomers::common::message::MessageId;
use gossip_glomers::common::message::NodeId;

#[test]
fn init_should_deserialize_init() {
    let str = r#"{"id":0,"src":"c0","dest":"n0","body":{"type":"init","node_id":"n0","node_ids":["n0"],"msg_id":1}}"#;

    let result: Message<InitMessage> = decode(str).unwrap();

    assert_eq!(
        result,
        Message::new_request(
            MessageAddress {
                src: NodeId::from("c0"),
                dest: NodeId::from("n0"),
                msg_id: MessageId(1),
            },
            InitMessage::Init { node_id: NodeId::from("n0"), node_ids: vec![NodeId::from("n0")] }
        )
    );
}

#[test]
fn init_should_serialize_init_ok() {
    let expected = r#"{"src":"n0","dest":"c0","body":{"in_reply_to":1,"type":"init_ok"}}"#;

    let result = encode(&Message::new_reply(
        MessageAddress { src: NodeId::from("c0"), dest: NodeId::from("n0"), msg_id: MessageId(1) }
            .to_reply_address(),
        InitMessage::InitOk,
    ));

    assert_eq!(result, expected);
}

#[test]
fn init_reads_back_from_its_line() {
    let message = Message::new_request(
        MessageAddress { src: NodeId::from("c1"), dest: NodeId::from("n2"), msg_id: MessageId(u64::MAX) },
        InitMessage::Init {
            node_id: NodeId::from("n2"),
            node_ids: vec![NodeId::from("n1"), NodeId::from("n2"), NodeId::from("n3")],
        },
    );
    let line = encode(&message);
    assert_eq!(
        line,
        r#"{"src":"c1","dest":"n2","body":{"msg_id":18446744073709551615,"type":"init","node_id":"n2","node_ids":["n1","n2","n3"]}}"#
    );
    let back: Message<InitMessage> = decode(&line).unwrap();
    assert_eq!(back, message);
}
