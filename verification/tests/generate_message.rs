use gossip_glomers::common::codec::decode;
use gossip_glomers::common::codec::encode;
use gossip_glomers::common::message::message::Message;
use gossip_glomers::common::message::message::MessageAddress;
use gossip_glomers::common::message::MessageId;
use gossip_glomers::common::message::NodeId;
use gossip_glomers::unique_id::message::GenerateMessage;

#[test]
fn generate_reads_and_writes() {
    let request: Message<GenerateMessage> =
        decode(r#"{"src":"c0","dest":"n0","body":{"type":"generate","msg_id":5}}"#).unwrap();
    let asked =
        MessageAddress { src: NodeId::from("c0"), dest: NodeId::from("n0"), msg_id: MessageId(5) };
    assert_eq!(request.address(), asked);
    let answer =
        Message::new_reply(asked.to_reply_address(), GenerateMessage::GenerateOk { id: "n0_0".to_string() });
    let line = encode(&answer);
    assert_eq!(
        line,
        r#"{"src":"n0","dest":"c0","body":{"in_reply_to":5,"type":"generate_ok","id":"n0_0"}}"#
    );
    let back: Message<GenerateMessage> = decode(&line).unwrap();
    assert_eq!(back, answer);
}
