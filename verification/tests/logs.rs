use telephone_line::logs::payload::{LogsReceive, LogsSend};
use telephone_line::logs::{Logs, Payload, MAX_POLL_MESSAGE_EACH};
use telephone_line::{Body, Init, Message, Node, NodeError};

fn store() -> Logs {
    Logs::from_init(Init { node_id: "n1".to_string(), node_ids: vec!["n1".to_string()] }, 1, ())
}

fn ask(node: &mut Logs, payload: Payload) -> Payload {
    let request = Message {
        src: "c1".to_string(),
        dest: "n1".to_string(),
        body: Body { msg_id: Some(8), in_reply_to: None, payload },
    };
    let mut out = node.step_message(request).unwrap();
    assert_eq!(out.len(), 1);
    let reply = out.remove(0);
    assert_eq!(reply.src, "n1");
    assert_eq!(reply.dest, "c1");
    assert_eq!(reply.body.in_reply_to, Some(8));
    reply.body.payload
}

fn send(node: &mut Logs, key: &str, msg: usize) -> usize {
    match ask(node, Payload::Send { key: key.to_string(), msg }) {
        Payload::SendOk { offset } => offset,
        other => panic!("unexpected payload {:?}", other),
    }
}

fn pair(key: &str, offset: usize) -> (String, usize) {
    (key.to_string(), offset)
}

#[test]
fn send_appends_at_the_next_offset() {
    let mut node = store();
    assert_eq!(send(&mut node, "k1", 10), 0);
    assert_eq!(send(&mut node, "k1", 11), 1);
    assert_eq!(send(&mut node, "k2", 20), 0);
    assert_eq!(send(&mut node, "k1", 12), 2);
    assert_eq!(node.msg_id(), 5);
}

#[test]
fn poll_returns_messages_from_the_offset() {
    let mut node = store();
    for msg in 0..8 {
        send(&mut node, "k1", 100 + msg);
    }
    send(&mut node, "k2", 7);
    let reply = ask(
        &mut node,
        Payload::Poll { offsets: vec![pair("k1", 2), pair("missing", 0), pair("k2", 0), pair("k2", 1)] },
    );
    assert_eq!(
        reply,
        Payload::PollOk {
            msgs: vec![
                ("k1".to_string(), vec![(2, 102), (3, 103), (4, 104), (5, 105), (6, 106)]),
                ("k2".to_string(), vec![(0, 7)]),
                ("k2".to_string(), vec![]),
            ]
        }
    );
    assert_eq!(MAX_POLL_MESSAGE_EACH, 5);
    assert_eq!(
        node.poll(&vec![pair("k1", 6), pair("k1", 100)]),
        vec![("k1".to_string(), vec![(6, 106), (7, 107)]), ("k1".to_string(), vec![])]
    );
}

#[test]
fn committed_offsets_are_listed_for_known_logs() {
    let mut node = store();
    send(&mut node, "k1", 1);
    send(&mut node, "k2", 2);
    send(&mut node, "k3", 3);
    let reply = ask(
        &mut node,
        Payload::CommitOffsets { offsets: vec![pair("k1", 4), pair("nope", 9), pair("k3", 0), pair("k1", 6)] },
    );
    assert_eq!(reply, Payload::CommitOffsetsOk);
    let reply = ask(
        &mut node,
        Payload::ListCommittedOffsets {
            keys: vec!["k3".to_string(), "k2".to_string(), "nope".to_string(), "k1".to_string()],
        },
    );
    assert_eq!(
        reply,
        Payload::ListCommittedOffsetsOk { offsets: vec![pair("k3", 0), pair("k1", 6)] }
    );
    assert_eq!(node.committed(&vec!["k2".to_string()]), vec![]);
}

#[test]
fn responses_are_refused_as_requests() {
    for payload in [
        Payload::SendOk { offset: 1 },
        Payload::PollOk { msgs: vec![] },
        Payload::CommitOffsetsOk,
        Payload::ListCommittedOffsetsOk { offsets: vec![] },
    ] {
        let mut node = store();
        let request = Message {
            src: "c1".to_string(),
            dest: "n1".to_string(),
            body: Body { msg_id: Some(8), in_reply_to: None, payload },
        };
        assert_eq!(node.step_message(request), Err(NodeError::UnexpectedPayload));
    }
}

#[test]
fn log_payloads_are_sorted_into_roles() {
    assert_eq!(
        LogsReceive::try_from(Payload::Send { key: "k".to_string(), msg: 1 }),
        Ok(LogsReceive::Send { key: "k".to_string(), msg: 1 })
    );
    assert_eq!(
        LogsReceive::try_from(Payload::Poll { offsets: vec![pair("k", 1)] }),
        Ok(LogsReceive::Poll { offsets: vec![pair("k", 1)] })
    );
    assert_eq!(LogsReceive::try_from(Payload::CommitOffsetsOk), Err(Payload::CommitOffsetsOk));
    assert_eq!(
        Payload::from(LogsReceive::ListCommittedOffsets { keys: vec!["a".to_string()] }),
        Payload::ListCommittedOffsets { keys: vec!["a".to_string()] }
    );
    assert_eq!(
        Payload::from(LogsReceive::CommitOffsets { offsets: vec![pair("k", 2)] }),
        Payload::CommitOffsets { offsets: vec![pair("k", 2)] }
    );
    assert_eq!(Payload::from(LogsSend::SendOk { offset: 3 }), Payload::SendOk { offset: 3 });
    assert_eq!(Payload::from(LogsSend::PollOk { msgs: vec![] }), Payload::PollOk { msgs: vec![] });
    assert_eq!(Payload::from(LogsSend::CommitOffsetsOk), Payload::CommitOffsetsOk);
    assert_eq!(
        Payload::from(LogsSend::ListCommittedOffsetsOk { offsets: vec![pair("k", 2)] }),
        Payload::ListCommittedOffsetsOk { offsets: vec![pair("k", 2)] }
    );
}

#[test]
fn log_store_has_no_timer() {
    assert!(store().timer().is_none());
}
