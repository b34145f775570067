use gossip_glomers::broadcast::actor::BroadcastActor;
use gossip_glomers::broadcast::message::BroadcastMessage;
use gossip_glomers::broadcast::message::MessageValue;
use gossip_glomers::common::message::message::Message;
use gossip_glomers::common::message::message::MessageAddress;
use gossip_glomers::common::message::message::MessageBody;
use gossip_glomers::common::message::MessageId;
use gossip_glomers::common::message::NodeId;
use gossip_glomers::common::order::compare_names;
use gossip_glomers::common::order::Precedence;
use gossip_glomers::common::runner::execute_action;
use gossip_glomers::common::runner::execute_actions;
use gossip_glomers::common::runner::reply;
use gossip_glomers::common::runner::send;
use gossip_glomers::common::runner::set_timer;
use gossip_glomers::common::runner::Runner;
use gossip_glomers::common::runner::RunnerAction;
use gossip_glomers::common::runner::MINIMUM_READ_DURATION;
use gossip_glomers::common::text::push_decimal;
use gossip_glomers::common::text::push_signed_decimal;
use gossip_glomers::common::this_node::ThisNode;
use gossip_glomers::common::timer::Timer;
use gossip_glomers::echo::actor::EchoActor;
use gossip_glomers::echo::message::EchoMessage;
use gossip_glomers::unique_id::actor::UniqueIdActor;
use gossip_glomers::unique_id::message::GenerateMessage;
use gossip_glomers::common::error::Error;

fn address(src: &str, dest: &str, id: u64) -> MessageAddress {
    MessageAddress { src: NodeId::from(src), dest: NodeId::from(dest), msg_id: MessageId(id) }
}

#[test]
fn names_that_start_with_c_are_clients() {
    assert!(NodeId::from("c0").is_client());
    assert!(NodeId::from("c").is_client());
    assert!(!NodeId::from("n0").is_client());
    assert!(!NodeId::from("").is_client());
    assert!(!NodeId::from("C1").is_client());
    assert!(matches!(NodeId::from("c12"), NodeId::Client(_)));
    assert!(matches!(NodeId::from("n12"), NodeId::Server(_)));
    assert_eq!(NodeId::from("n12").to_string(), "n12");
    assert_eq!(NodeId::from("c3").as_str(), "c3");
}

#[test]
fn identifiers_are_equal_when_their_names_are() {
    assert_eq!(NodeId::from("n1"), NodeId::from("n1"));
    assert_ne!(NodeId::from("n1"), NodeId::from("n2"));
    assert_eq!(NodeId::Server("x".to_string()), NodeId::Client("x".to_string()));
    let copy = NodeId::from("n7").clone();
    assert_eq!(copy, NodeId::from("n7"));
}

#[test]
fn identifiers_stand_in_the_order_of_their_names() {
    assert!(NodeId::from("n1") < NodeId::from("n2"));
    assert!(NodeId::from("c9") < NodeId::from("n0"));
    assert!(NodeId::from("n10") < NodeId::from("n2"));
    assert!(NodeId::from("n2") > NodeId::from("n1"));
    assert!(NodeId::from("n1") <= NodeId::from("n1"));
    assert_eq!(
        NodeId::from("n1").partial_cmp(&NodeId::from("n1")),
        Some(std::cmp::Ordering::Equal)
    );
}

#[test]
fn names_are_ordered_byte_by_byte() {
    assert_eq!(compare_names("n1", "n2"), Precedence::Before);
    assert_eq!(compare_names("n2", "n1"), Precedence::After);
    assert_eq!(compare_names("n1", "n1"), Precedence::Same);
    assert_eq!(compare_names("n1", "n10"), Precedence::Before);
    assert_eq!(compare_names("n10", "n2"), Precedence::Before);
    assert_eq!(compare_names("", "a"), Precedence::Before);
    assert_eq!(compare_names("", ""), Precedence::Same);
    assert_eq!(compare_names("c9", "n0"), Precedence::Before);
    assert_eq!(compare_names("z", "\u{e9}"), Precedence::Before);
    assert_eq!(compare_names("\u{10000}", "\u{ffff}"), Precedence::After);
}

#[test]
fn the_next_message_number_is_one_more() {
    assert_eq!(MessageId(1).inc(), MessageId(2));
    assert_eq!(MessageId(u64::MAX - 1).inc(), MessageId(u64::MAX));
}

#[test]
fn a_node_numbers_its_messages_from_one() {
    let mut node = ThisNode::new(NodeId::from("n1"), vec![NodeId::from("n1"), NodeId::from("n2")]);
    assert_eq!(node.node_id(), &NodeId::from("n1"));
    assert_eq!(node.node_ids(), &vec![NodeId::from("n1"), NodeId::from("n2")]);
    assert_eq!(node.remaining_message_ids(), u64::MAX - 1);
    assert_eq!(node.new_destination_address(NodeId::from("n2")), address("n1", "n2", 1));
    assert_eq!(node.new_destination_address(NodeId::from("c4")), address("n1", "c4", 2));
    assert_eq!(node.new_destination_address(NodeId::from("n2")), address("n1", "n2", 3));
    assert_eq!(node.remaining_message_ids(), u64::MAX - 4);
}

#[test]
fn a_reply_goes_back_with_the_number_of_the_request() {
    let request = Message::new_request(address("c0", "n0", 17), "ask");
    assert_eq!(request.address(), address("c0", "n0", 17));
    let (body, from) = request.body_and_address();
    assert_eq!(body, "ask");
    let answer = Message::new_reply(from.to_reply_address(), "told");
    assert_eq!(answer.src, NodeId::from("n0"));
    assert_eq!(answer.dest, NodeId::from("c0"));
    assert_eq!(
        answer.body,
        MessageBody::Reply { in_reply_to: MessageId(17), value: "told" }
    );
    assert_eq!(answer.address(), address("n0", "c0", 17));
    let (told, back) = answer.body_and_address();
    assert_eq!(told, "told");
    assert_eq!(back, address("n0", "c0", 17));
}

#[test]
fn actions_are_what_their_builders_say() {
    let sent: RunnerAction<&str, u8> = send(address("n0", "n1", 3), "x");
    assert_eq!(sent, RunnerAction::SendMessage(Message::new_request(address("n0", "n1", 3), "x")));
    let answered: RunnerAction<&str, u8> = reply(address("c0", "n0", 3), "y");
    assert_eq!(
        answered,
        RunnerAction::SendMessage(Message::new_reply(address("c0", "n0", 3).to_reply_address(), "y"))
    );
    let timed: RunnerAction<&str, u8> = set_timer(250, 9);
    assert_eq!(timed, RunnerAction::SetTimer { delay: 250, timer_key: 9 });
}

#[test]
fn actions_are_carried_out_in_their_order() {
    let mut outbox: Vec<Message<&str>> = Vec::new();
    let mut timer: Timer<u8> = Timer::new();
    execute_action(&mut outbox, &mut timer, 1000, send(address("n0", "n1", 1), "first"));
    execute_actions(
        &mut outbox,
        &mut timer,
        1000,
        vec![
            set_timer(30, 3),
            send(address("n0", "n2", 2), "second"),
            set_timer(10, 1),
            reply(address("c0", "n0", 5), "third"),
            set_timer(20, 2),
        ],
    );
    let bodies: Vec<&str> = outbox.into_iter().map(|message| message.body_and_address().0).collect();
    assert_eq!(bodies, vec!["first", "second", "third"]);
    assert_eq!(timer.duration_until_next_timer(1000), 10);
    assert_eq!(timer.remove_expired_timers(1019), vec![1]);
    assert_eq!(timer.remove_expired_timers(1030), vec![2, 3]);
}

fn unsigned(n: u128) -> String {
    let mut text = String::from("<");
    push_decimal(&mut text, n);
    text
}

fn signed(n: i128) -> String {
    let mut text = String::from("<");
    push_signed_decimal(&mut text, n);
    text
}

#[test]
fn numbers_are_written_in_decimal() {
    assert_eq!(unsigned(0), "<0");
    assert_eq!(unsigned(7), "<7");
    assert_eq!(unsigned(10), "<10");
    assert_eq!(unsigned(1234567890), "<1234567890");
    assert_eq!(unsigned(u64::MAX as u128), "<18446744073709551615");
    assert_eq!(unsigned(u128::MAX), "<340282366920938463463374607431768211455");
    assert_eq!(signed(0), "<0");
    assert_eq!(signed(-1), "<-1");
    assert_eq!(signed(-905), "<-905");
    assert_eq!(signed(i64::MAX as i128), "<9223372036854775807");
    assert_eq!(signed(i64::MIN as i128), "<-9223372036854775808");
}

#[test]
fn errors_have_a_line_to_show() {
    assert_eq!(
        Error::UnexpectedMessage("ReadOk".to_string()).to_string(),
        "Received an unexpected message: 'ReadOk'"
    );
    assert_eq!(Error::Console("gone".to_string()).to_string(), "Console error: 'gone'");
    assert_eq!(Error::Io("broken pipe".to_string()).to_string(), "broken pipe");
    assert_eq!(Error::Serde("expected value".to_string()).to_string(), "expected value");
    assert_eq!(Error::UnexpectedError("x".to_string()).to_string(), "Unexpected error: 'x'");
}

#[test]
fn the_echo_node_sends_the_text_back() {
    let node = ThisNode::new(NodeId::from("n0"), vec![NodeId::from("n0")]);
    let mut runner: Runner<EchoActor> = Runner::new(node).unwrap();
    assert_eq!(runner.read_timeout(5), MINIMUM_READ_DURATION);
    let outbox = runner
        .request(
            Message::new_request(address("c0", "n0", 4), EchoMessage::Echo { echo: "hi".to_string() }),
            5,
        )
        .unwrap();
    assert_eq!(
        outbox,
        vec![Message::new_reply(
            address("c0", "n0", 4).to_reply_address(),
            EchoMessage::EchoOk { echo: "hi".to_string() }
        )]
    );
    assert_eq!(runner.timeout((), 6).unwrap(), vec![]);
    match runner.request(
        Message::new_reply(
            address("c0", "n0", 4).to_reply_address(),
            EchoMessage::EchoOk { echo: "hi".to_string() },
        ),
        7,
    ) {
        Err(Error::UnexpectedMessage(text)) => assert_eq!(text, "EchoOk"),
        _ => panic!("an acknowledgement was accepted"),
    }
}

#[test]
fn the_identifier_node_counts_up() {
    let node = ThisNode::new(NodeId::from("n3"), vec![NodeId::from("n3")]);
    let mut runner: Runner<UniqueIdActor> = Runner::new(node).unwrap();
    for count in 0..12u64 {
        let outbox = runner
            .request(Message::new_request(address("c0", "n3", count), GenerateMessage::Generate), 0)
            .unwrap();
        assert_eq!(
            outbox,
            vec![Message::new_reply(
                address("c0", "n3", count).to_reply_address(),
                GenerateMessage::GenerateOk { id: format!("n3_{}", count) }
            )]
        );
    }
    assert_eq!(runner.timeout((), 0).unwrap(), vec![]);
    match runner.request(
        Message::new_request(
            address("c0", "n3", 1),
            GenerateMessage::GenerateOk { id: "n3_0".to_string() },
        ),
        0,
    ) {
        Err(Error::UnexpectedMessage(text)) => assert_eq!(text, "GenerateOk"),
        _ => panic!("an identifier was accepted as a request"),
    }
}

#[test]
fn the_loop_waits_a_second_at_least() {
    let node = ThisNode::new(
        NodeId::from("n0"),
        vec![NodeId::from("n0"), NodeId::from("n1"), NodeId::from("n2")],
    );
    let mut runner: Runner<BroadcastActor> = Runner::new(node).unwrap();
    assert_eq!(runner.read_timeout(0), 1000);
    runner
        .request(
            Message::new_request(
                address("c0", "n0", 1),
                BroadcastMessage::Broadcast { message: MessageValue::Single(1) },
            ),
            500,
        )
        .unwrap();
    assert_eq!(runner.read_timeout(500), 4000);
    assert_eq!(runner.read_timeout(3499), 1001);
    assert_eq!(runner.read_timeout(3500), 1000);
    assert_eq!(runner.read_timeout(4400), 1000);
    assert_eq!(runner.read_timeout(9000), 1000);
}
