use gossip_glomers::common::codec::decode;
use gossip_glomers::common::codec::encode;
use gossip_glomers::common::message::message::Message;
use gossip_glomers::common::message::message::MessageAddress;
use gossip_glomers::common::message::MessageId;
use gossip_glomers::common::message::NodeId;
use gossip_glomers::echo::message::EchoMessage;

#[test]
fn message_should_deserialize_init() {
    let str = r#"{"id":0,"src":"c0","dest":"n0","body":{"type":"echo","echo":"text","msg_id":1}}"#;

    let result: Message<EchoMessage> = decode(str).unwrap();

    assert_eq!(
        result,
        Message::new_request(
            MessageAddress {
                src: NodeId::from("c0"),
                dest: NodeId::from("n0"),
                msg_id: MessageId(1),
            },
            EchoMessage::Echo { echo: "text".to_string() }
        )
    );
}

#[test]
fn message_should_serialize_init_ok() {
    let expected = r#"{"src":"n0","dest":"c0","body":{"in_reply_to":1,"type":"echo_ok","echo":"text"}}"#;

    let result = encode(&Message::new_reply(
        MessageAddress { src: NodeId::from("c0"), dest: NodeId::from("n0"), msg_id: MessageId(1) }
            .to_reply_address(),
        EchoMessage::EchoOk { echo: "text".to_string() },
    ));
    assert_eq!(result, expected);
}
