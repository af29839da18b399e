use telephone_line::echo::{Echo, Payload as EchoPayload};
use telephone_line::runtime::{dispatch, handshake, start, EventSender, Flow, Inbound};
use telephone_line::unique::{Payload as UniquePayload, Unique};
use telephone_line::{next_msg_id, Body, Init, InitPayload, Message, Never, Node, NodeError};

fn message<P>(src: &str, dest: &str, msg_id: Option<usize>, payload: P) -> Message<P> {
    Message {
        src: src.to_string(),
        dest: dest.to_string(),
        body: Body { msg_id, in_reply_to: None, payload },
    }
}

fn init(node_id: &str, node_ids: &[&str]) -> Init {
    Init { node_id: node_id.to_string(), node_ids: node_ids.iter().map(|s| s.to_string()).collect() }
}

#[test]
fn reply_swaps_ends_and_refers_back() {
    let mut id = 7usize;
    let request = Message {
        src: "c1".to_string(),
        dest: "n1".to_string(),
        body: Body { msg_id: Some(41), in_reply_to: Some(3), payload: "ping" },
    };
    let reply = request.reply(Some(&mut id));
    assert_eq!(reply.src, "n1");
    assert_eq!(reply.dest, "c1");
    assert_eq!(reply.body.msg_id, Some(7));
    assert_eq!(reply.body.in_reply_to, Some(41));
    assert_eq!(reply.body.payload, "ping");
    assert_eq!(id, 8);
}

#[test]
fn reply_without_counter_has_no_identifier() {
    let request = message("a", "b", None, 5u8);
    let reply = request.reply(None);
    assert_eq!(reply.src, "b");
    assert_eq!(reply.dest, "a");
    assert_eq!(reply.body.msg_id, None);
    assert_eq!(reply.body.in_reply_to, None);
    assert_eq!(reply.body.payload, 5);
}

#[test]
fn next_msg_id_counts_up() {
    let mut id = 0usize;
    assert_eq!(next_msg_id(&mut id), 0);
    assert_eq!(next_msg_id(&mut id), 1);
    assert_eq!(id, 2);
}

#[test]
fn handshake_acknowledges_init() {
    let first = message("c0", "n1", Some(1), InitPayload::Init(init("n1", &["n1", "n2"])));
    let (record, reply, msg_id) = handshake(first).unwrap();
    assert_eq!(record, init("n1", &["n1", "n2"]));
    assert_eq!(reply.src, "n1");
    assert_eq!(reply.dest, "c0");
    assert_eq!(reply.body.msg_id, Some(0));
    assert_eq!(reply.body.in_reply_to, Some(1));
    assert_eq!(reply.body.payload, InitPayload::InitOk);
    assert_eq!(msg_id, 1);
}

#[test]
fn handshake_refuses_other_payloads() {
    let first = message("c0", "n1", Some(1), InitPayload::InitOk);
    assert_eq!(handshake(first), Err(NodeError::NotInit));
}

#[test]
fn start_builds_the_node_behind_the_handshake() {
    let first = message("c0", "n3", Some(9), InitPayload::Init(init("n3", &["n3"])));
    let (node, reply) = match start::<Echo>(first, ()) {
        Ok(started) => started,
        Err(error) => panic!("handshake failed: {:?}", error),
    };
    assert_eq!(node.msg_id(), 1);
    assert_eq!(reply.body.in_reply_to, Some(9));
    assert!(node.timer().is_none());
}

#[test]
fn start_refuses_a_first_message_that_is_no_init() {
    let first = message("c0", "n3", Some(9), InitPayload::InitOk);
    assert!(matches!(start::<Echo>(first, ()), Err(NodeError::NotInit)));
}

#[test]
fn echo_answers_with_the_same_text() {
    let mut node = Echo::from_init(init("n1", &["n1"]), 1, ());
    let out = node
        .step_message(message("c1", "n1", Some(5), EchoPayload::Echo { echo: "hello".to_string() }))
        .unwrap();
    assert_eq!(out.len(), 1);
    assert_eq!(out[0].src, "n1");
    assert_eq!(out[0].dest, "c1");
    assert_eq!(out[0].body.msg_id, Some(1));
    assert_eq!(out[0].body.in_reply_to, Some(5));
    assert_eq!(out[0].body.payload, EchoPayload::EchoOk { echo: "hello".to_string() });
    assert_eq!(node.msg_id(), 2);
}

#[test]
fn echo_refuses_echo_ok() {
    let mut node = Echo::from_init(init("n1", &["n1"]), 1, ());
    let result =
        node.step_message(message("c1", "n1", Some(5), EchoPayload::EchoOk { echo: "x".to_string() }));
    assert_eq!(result, Err(NodeError::UnexpectedPayload));
}

#[test]
fn echo_stops_when_identifiers_are_used_up() {
    let mut node = Echo::from_init(init("n1", &["n1"]), usize::MAX, ());
    let result =
        node.step_message(message("c1", "n1", Some(5), EchoPayload::Echo { echo: "x".to_string() }));
    assert_eq!(result, Err(NodeError::MsgIdExhausted));
    assert_eq!(node.msg_id(), usize::MAX);
}

#[test]
fn unique_names_hold_node_and_number() {
    let mut node = Unique::from_init(init("n2", &["n1", "n2"]), 1, ());
    let first = node.step_message(message("c1", "n2", Some(1), UniquePayload::Generate)).unwrap();
    let second = node.step_message(message("c1", "n2", Some(2), UniquePayload::Generate)).unwrap();
    assert_eq!(first[0].body.msg_id, Some(1));
    assert_eq!(first[0].body.payload, UniquePayload::GenerateOk { id: "n2-2".to_string() });
    assert_eq!(second[0].body.msg_id, Some(2));
    assert_eq!(second[0].body.payload, UniquePayload::GenerateOk { id: "n2-3".to_string() });
}

#[test]
fn unique_names_write_large_numbers_in_full() {
    let mut node = Unique::from_init(init("node", &["node"]), 1234567, ());
    let out = node.step_message(message("c1", "node", None, UniquePayload::Generate)).unwrap();
    assert_eq!(out[0].body.payload, UniquePayload::GenerateOk { id: "node-1234568".to_string() });
    assert_eq!(out[0].body.in_reply_to, None);
}

#[test]
fn unique_names_never_repeat() {
    let mut node = Unique::from_init(init("n1", &["n1"]), 1, ());
    let mut seen = std::collections::HashSet::new();
    for request in 0..200 {
        let out =
            node.step_message(message("c1", "n1", Some(request), UniquePayload::Generate)).unwrap();
        match &out[0].body.payload {
            UniquePayload::GenerateOk { id } => assert!(seen.insert(id.clone())),
            other => panic!("unexpected payload {:?}", other),
        }
    }
}

#[test]
fn unique_refuses_generate_ok() {
    let mut node = Unique::from_init(init("n1", &["n1"]), 1, ());
    let result = node
        .step_message(message("c1", "n1", Some(1), UniquePayload::GenerateOk { id: "x".to_string() }));
    assert_eq!(result, Err(NodeError::UnexpectedPayload));
}

#[test]
fn dispatch_routes_messages_and_stops_on_shutdown() {
    let mut node = Echo::from_init(init("n1", &["n1"]), 1, ());
    let item: Inbound<EchoPayload, Never> =
        Inbound::Message(message("c1", "n1", Some(1), EchoPayload::Echo { echo: "a".to_string() }));
    match dispatch(&mut node, item) {
        Ok(Flow::Send(out)) => {
            assert_eq!(out.len(), 1);
            assert_eq!(out[0].body.payload, EchoPayload::EchoOk { echo: "a".to_string() });
        }
        _ => panic!("the message was not answered"),
    }
    assert!(matches!(dispatch(&mut node, Inbound::Shutdown), Ok(Flow::Stop)));
    assert_eq!(node.msg_id(), 2);
}

#[test]
fn dispatch_surfaces_a_queued_failure() {
    let mut node = Echo::from_init(init("n1", &["n1"]), 1, ());
    let item: Inbound<EchoPayload, Never> = Inbound::Failed { reason: "bad line".to_string() };
    match dispatch(&mut node, item) {
        Err(NodeError::Input { reason }) => assert_eq!(reason, "bad line"),
        _ => panic!("the failure was not surfaced"),
    }
    assert_eq!(node.msg_id(), 1);
}

#[test]
fn dispatch_surfaces_a_handler_error() {
    let mut node = Echo::from_init(init("n1", &["n1"]), 1, ());
    let item: Inbound<EchoPayload, Never> =
        Inbound::Message(message("c1", "n1", Some(1), EchoPayload::EchoOk { echo: "a".to_string() }));
    assert!(matches!(dispatch(&mut node, item), Err(NodeError::UnexpectedPayload)));
}

#[test]
fn event_sender_queues_events_in_order() {
    let (tx, rx) = std::sync::mpsc::channel::<Inbound<u8, u32>>();
    let mut sender = EventSender::new(tx);
    assert!(sender.send(10).is_ok());
    assert!(sender.send(11).is_ok());
    assert!(matches!(rx.recv().unwrap(), Inbound::Event(10)));
    assert!(matches!(rx.recv().unwrap(), Inbound::Event(11)));
}

#[test]
fn event_sender_fails_on_a_closed_queue() {
    let (tx, rx) = std::sync::mpsc::channel::<Inbound<u8, u32>>();
    drop(rx);
    let mut sender = EventSender::new(tx);
    assert!(sender.send(10).is_err());
    assert!(EventSender::<u8, u32>::outcome(true).is_ok());
    assert!(EventSender::<u8, u32>::outcome(false).is_err());
}

#[test]
fn event_sender_queues_an_event_as_an_event() {
    assert!(matches!(EventSender::<u8, u32>::item(7), Inbound::Event(7)));
    let (tx, rx) = std::sync::mpsc::channel::<Inbound<u8, u32>>();
    let mut sender = EventSender::new(tx);
    sender.send(7).unwrap();
    drop(sender);
    assert!(matches!(rx.recv(), Ok(Inbound::Event(7))));
    assert!(rx.recv().is_err());
}
