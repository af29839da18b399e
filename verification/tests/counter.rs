use telephone_line::counter::mismatch::{current_value, parse_decimal};
use telephone_line::counter::payload::{CountReceive, CountSend, Raw, Receive, Send};
use telephone_line::counter::{CentralSnapshot, Counter, Event, Snapshot};
use telephone_line::services::key_value;
use telephone_line::services::key_value::Code;
use telephone_line::{Body, Init, Message, Node, NodeError};

fn node() -> Counter {
    Counter::from_init(Init { node_id: "n1".to_string(), node_ids: vec!["n1".to_string()] }, 1, ())
}

fn from_client(msg_id: usize, payload: Raw) -> Message<Raw> {
    Message {
        src: "c1".to_string(),
        dest: "n1".to_string(),
        body: Body { msg_id: Some(msg_id), in_reply_to: None, payload },
    }
}

fn from_store(in_reply_to: Option<usize>, payload: Raw) -> Message<Raw> {
    Message {
        src: "seq-kv".to_string(),
        dest: "n1".to_string(),
        body: Body { msg_id: None, in_reply_to, payload },
    }
}

fn read(node: &mut Counter) -> usize {
    let out = node.step_message(from_client(99, Raw::Read { key: None })).unwrap();
    assert_eq!(out.len(), 1);
    match out[0].body.payload {
        Raw::ReadOk { value } => value,
        ref other => panic!("unexpected payload {:?}", other),
    }
}

fn fold(node: &mut Counter) -> Message<Raw> {
    let mut out = node.step_event(Event::CentralSnapshot).unwrap();
    assert_eq!(out.len(), 1);
    out.remove(0)
}

#[test]
fn add_add_read_then_confirmed_fold() {
    let mut node = node();
    let out = node.step_message(from_client(1, Raw::Add { delta: 5 })).unwrap();
    assert_eq!(out.len(), 1);
    assert_eq!(out[0].src, "n1");
    assert_eq!(out[0].dest, "c1");
    assert_eq!(out[0].body.msg_id, Some(1));
    assert_eq!(out[0].body.in_reply_to, Some(1));
    assert_eq!(out[0].body.payload, Raw::AddOk);
    node.step_message(from_client(2, Raw::Add { delta: 3 })).unwrap();
    assert_eq!(node.local_counter(), 8);
    assert_eq!(node.central_snapshot(), None);
    assert_eq!(read(&mut node), 8);

    let request = fold(&mut node);
    assert_eq!(request.src, "n1");
    assert_eq!(request.dest, "seq-kv");
    assert_eq!(request.body.in_reply_to, None);
    assert_eq!(request.body.payload, Raw::Cas { key: "c".to_string(), from: 0, to: 8 });
    let attempt = request.body.msg_id.unwrap();
    assert_eq!(
        node.pending_attempts(),
        vec![Snapshot {
            local_count_to_subtract: 8,
            central: CentralSnapshot { counter: 8, msg_id: attempt },
        }]
    );

    let out = node.step_message(from_store(Some(attempt), Raw::CasOk)).unwrap();
    assert!(out.is_empty());
    assert_eq!(node.local_counter(), 0);
    assert_eq!(node.central_snapshot(), Some(CentralSnapshot { counter: 8, msg_id: attempt }));
    assert!(node.pending_attempts().is_empty());
    assert_eq!(read(&mut node), 8);
}

#[test]
fn cas_mismatch_text_is_parsed_and_the_fold_retried() {
    let mut node = node();
    node.step_message(from_client(1, Raw::Add { delta: 5 })).unwrap();
    let request = fold(&mut node);
    assert_eq!(request.body.payload, Raw::Cas { key: "c".to_string(), from: 0, to: 5 });
    let attempt = request.body.msg_id.unwrap();

    let error = Raw::Error { code: Code::from(22), text: "current value 5 is not 0".to_string() };
    let out = node.step_message(from_store(Some(attempt), error)).unwrap();
    assert!(out.is_empty());
    assert_eq!(node.central_snapshot(), Some(CentralSnapshot { counter: 5, msg_id: attempt }));
    assert_eq!(node.local_counter(), 5);
    assert!(node.pending_attempts().is_empty());

    let retry = fold(&mut node);
    assert_eq!(retry.body.payload, Raw::Cas { key: "c".to_string(), from: 5, to: 10 });
}

#[test]
fn cas_mismatch_without_a_value_reads_again() {
    let mut node = node();
    node.step_message(from_client(1, Raw::Add { delta: 5 })).unwrap();
    let attempt = fold(&mut node).body.msg_id.unwrap();
    let error = Raw::Error { code: Code::CasFromMismatch, text: "precondition failed".to_string() };
    let out = node.step_message(from_store(Some(attempt), error)).unwrap();
    assert_eq!(out.len(), 1);
    assert_eq!(out[0].dest, "seq-kv");
    assert_eq!(out[0].body.payload, Raw::Read { key: Some("c".to_string()) });
    assert_eq!(node.central_snapshot(), None);
    assert_eq!(node.pending_attempts().len(), 1);
}

#[test]
fn key_not_found_sends_one_write_and_keeps_the_attempts() {
    let mut node = node();
    node.step_message(from_client(1, Raw::Add { delta: 4 })).unwrap();
    let attempt = fold(&mut node).body.msg_id.unwrap();
    let before = node.pending_attempts();
    let next_id = node.msg_id();

    let error = Raw::Error { code: Code::from(20), text: "key does not exist".to_string() };
    let out = node.step_message(from_store(Some(attempt), error)).unwrap();
    assert_eq!(out.len(), 1);
    assert_eq!(out[0].src, "n1");
    assert_eq!(out[0].dest, "seq-kv");
    assert_eq!(out[0].body.msg_id, Some(next_id + 1));
    assert_eq!(out[0].body.in_reply_to, None);
    assert_eq!(out[0].body.payload, Raw::Write { key: "c".to_string(), value: 0 });
    assert_eq!(node.pending_attempts(), before);
    assert_eq!(node.local_counter(), 4);
    assert_eq!(node.central_snapshot(), None);

    let write = out[0].body.msg_id.unwrap();
    node.step_message(from_store(Some(write), Raw::WriteOk)).unwrap();
    assert_eq!(node.central_snapshot(), Some(CentralSnapshot { counter: 0, msg_id: write }));
    assert!(node.pending_attempts().is_empty());
    assert_eq!(node.local_counter(), 4);
}

#[test]
fn cas_ok_for_an_unknown_attempt_is_an_error() {
    let mut node = node();
    node.step_message(from_client(1, Raw::Add { delta: 4 })).unwrap();
    let attempt = fold(&mut node).body.msg_id.unwrap();
    let result = node.step_message(from_store(Some(attempt + 100), Raw::CasOk));
    assert_eq!(result, Err(NodeError::UnknownAttempt { msg_id: attempt + 100 }));
    assert_eq!(node.pending_attempts().len(), 1);
    assert_eq!(node.update_snapshot_cas_succeeded(0), Err(NodeError::UnknownAttempt { msg_id: 0 }));
}

#[test]
fn attempts_stay_in_ascending_order() {
    let mut node = node();
    let mut ids = Vec::new();
    for round in 1..=6 {
        node.step_message(from_client(round, Raw::Add { delta: round })).unwrap();
        ids.push(fold(&mut node).body.msg_id.unwrap());
    }
    let pending = node.pending_attempts();
    assert_eq!(pending.len(), 6);
    assert!(pending.windows(2).all(|pair| pair[0].central.msg_id < pair[1].central.msg_id));
    assert_eq!(pending.iter().map(|s| s.central.msg_id).collect::<Vec<_>>(), ids);
    assert_eq!(pending[2].local_count_to_subtract, 6);
    assert_eq!(pending[2].central.counter, 6);

    node.step_message(from_store(Some(ids[2]), Raw::CasOk)).unwrap();
    let pending = node.pending_attempts();
    assert_eq!(pending.iter().map(|s| s.central.msg_id).collect::<Vec<_>>(), ids[3..].to_vec());
    assert_eq!(node.local_counter(), 21 - 6);
    assert_eq!(node.central_snapshot(), Some(CentralSnapshot { counter: 6, msg_id: ids[2] }));
    assert_eq!(read(&mut node), 21);
}

#[test]
fn fold_with_nothing_new_reads_the_store() {
    let mut node = node();
    let request = fold(&mut node);
    assert_eq!(request.body.payload, Raw::Read { key: Some("c".to_string()) });
    assert_eq!(request.body.msg_id, Some(1));
    assert!(node.pending_attempts().is_empty());

    node.step_message(from_client(1, Raw::Add { delta: 2 })).unwrap();
    let first = fold(&mut node);
    assert_eq!(first.body.payload, Raw::Cas { key: "c".to_string(), from: 0, to: 2 });
    let second = fold(&mut node);
    assert_eq!(second.body.payload, Raw::Read { key: Some("c".to_string()) });
    assert_eq!(node.pending_attempts().len(), 1);
}

#[test]
fn read_ok_is_adopted_unless_it_lowers_the_value() {
    let mut node = node();
    let first = fold(&mut node).body.msg_id.unwrap();
    let second = fold(&mut node).body.msg_id.unwrap();
    node.step_message(from_store(Some(second), Raw::ReadOk { value: 9 })).unwrap();
    assert_eq!(node.central_snapshot(), Some(CentralSnapshot { counter: 9, msg_id: second }));
    node.step_message(from_store(Some(first), Raw::ReadOk { value: 4 })).unwrap();
    assert_eq!(node.central_snapshot(), Some(CentralSnapshot { counter: 9, msg_id: second }));
    node.step_message(from_store(Some(first), Raw::ReadOk { value: 12 })).unwrap();
    assert_eq!(node.central_snapshot(), Some(CentralSnapshot { counter: 12, msg_id: first }));
    assert_eq!(read(&mut node), 12);
}

#[test]
fn update_with_snapshot_drops_the_attempts_up_to_its_request() {
    let mut node = node();
    let mut ids = Vec::new();
    for round in 1..=3 {
        node.step_message(from_client(round, Raw::Add { delta: 1 })).unwrap();
        ids.push(fold(&mut node).body.msg_id.unwrap());
    }
    node.update_with_snapshot(Snapshot {
        local_count_to_subtract: 0,
        central: CentralSnapshot { counter: 30, msg_id: ids[1] + 1 },
    });
    assert_eq!(node.pending_attempts().len(), 1);
    assert_eq!(node.pending_attempts()[0].central.msg_id, ids[2]);
    assert_eq!(node.central_snapshot(), Some(CentralSnapshot { counter: 30, msg_id: ids[1] + 1 }));
    assert_eq!(node.local_counter(), 3);
    assert_eq!(node.update_snapshot_cas_succeeded(ids[2]), Ok(()));
    assert_eq!(node.local_counter(), 0);
    assert_eq!(node.central_snapshot(), Some(CentralSnapshot { counter: 3, msg_id: ids[2] }));
}

#[test]
fn confirmed_attempt_that_folded_too_much_is_an_error() {
    let mut node = node();
    node.step_message(from_client(1, Raw::Add { delta: 5 })).unwrap();
    let first = fold(&mut node).body.msg_id.unwrap();
    node.step_message(from_client(2, Raw::Add { delta: 3 })).unwrap();
    let second = fold(&mut node).body.msg_id.unwrap();
    node.step_message(from_store(Some(first), Raw::CasOk)).unwrap();
    assert_eq!(node.local_counter(), 3);
    let result = node.step_message(from_store(Some(second), Raw::CasOk));
    assert_eq!(result, Err(NodeError::FoldExceedsLocal { msg_id: second }));
    assert_eq!(node.local_counter(), 3);
    assert_eq!(node.pending_attempts().len(), 1);
}

#[test]
fn store_reply_without_reference_is_an_error() {
    let mut node = node();
    assert_eq!(
        node.step_message(from_store(None, Raw::ReadOk { value: 1 })),
        Err(NodeError::MissingInReplyTo)
    );
}

#[test]
fn unknown_store_error_is_an_error() {
    let mut node = node();
    let error = Raw::Error { code: Code::from(13), text: "crash".to_string() };
    assert_eq!(
        node.step_message(from_store(Some(1), error)),
        Err(NodeError::UnknownStoreError { code: 13 })
    );
}

#[test]
fn payloads_that_the_node_only_sends_are_refused() {
    for payload in [
        Raw::AddOk,
        Raw::Read { key: Some("c".to_string()) },
        Raw::Write { key: "c".to_string(), value: 1 },
        Raw::Cas { key: "c".to_string(), from: 1, to: 2 },
    ] {
        let mut node = node();
        assert_eq!(node.step_message(from_client(1, payload)), Err(NodeError::UnexpectedPayload));
        assert_eq!(node.msg_id(), 2);
    }
}

#[test]
fn totals_that_do_not_fit_are_errors() {
    let mut node = node();
    node.step_message(from_client(1, Raw::Add { delta: usize::MAX })).unwrap();
    assert_eq!(
        node.step_message(from_client(2, Raw::Add { delta: 1 })),
        Err(NodeError::CounterOverflow)
    );
    assert_eq!(node.local_counter(), usize::MAX);
    let read_id = fold(&mut node).body.msg_id.unwrap();
    node.step_message(from_store(Some(read_id + 50), Raw::ReadOk { value: 1 })).unwrap();
    assert_eq!(
        node.step_message(from_client(3, Raw::Read { key: None })),
        Err(NodeError::CounterOverflow)
    );
    assert_eq!(node.step_event(Event::CentralSnapshot), Err(NodeError::CounterOverflow));
}

#[test]
fn used_up_identifiers_are_an_error() {
    let mut node = Counter::from_init(
        Init { node_id: "n1".to_string(), node_ids: Vec::new() },
        usize::MAX,
        (),
    );
    assert_eq!(
        node.step_message(from_client(1, Raw::Add { delta: 1 })),
        Err(NodeError::MsgIdExhausted)
    );
    assert_eq!(node.step_event(Event::CentralSnapshot), Err(NodeError::MsgIdExhausted));
    assert_eq!(node.local_counter(), 0);
}

#[test]
fn counter_asks_for_a_timer() {
    assert_eq!(node().timer(), Some((1000, Event::CentralSnapshot)));
}

#[test]
fn total_never_falls_over_adds_and_folds() {
    let mut node = node();
    let mut last = 0;
    for step in 0..40usize {
        if step % 3 == 2 {
            node.step_event(Event::CentralSnapshot).unwrap();
        } else {
            node.step_message(from_client(step, Raw::Add { delta: step % 5 })).unwrap();
        }
        let total = node.local_counter() + node.central_snapshot().map(|s| s.counter).unwrap_or(0);
        assert!(total >= last);
        last = total;
    }
    assert_eq!(last, (0..40usize).filter(|s| s % 3 != 2).map(|s| s % 5).sum::<usize>());
}

#[test]
fn parse_decimal_reads_digits_only() {
    assert_eq!(parse_decimal("0"), Some(0));
    assert_eq!(parse_decimal("5"), Some(5));
    assert_eq!(parse_decimal("0042"), Some(42));
    assert_eq!(parse_decimal("1234567890"), Some(1234567890));
    assert_eq!(parse_decimal(&usize::MAX.to_string()), Some(usize::MAX));
    assert_eq!(parse_decimal(&format!("{}0", usize::MAX)), None);
    assert_eq!(parse_decimal("340282366920938463463374607431768211456"), None);
    assert_eq!(parse_decimal(""), None);
    assert_eq!(parse_decimal("+5"), None);
    assert_eq!(parse_decimal("-5"), None);
    assert_eq!(parse_decimal("5 "), None);
    assert_eq!(parse_decimal("12a"), None);
    assert_eq!(parse_decimal("\u{0665}"), None);
}

#[test]
fn current_value_finds_the_number_in_the_text() {
    assert_eq!(current_value("current value 5 is not 0"), Some(5));
    assert_eq!(current_value("CAS failed: current value 120 is not 7, retry"), Some(120));
    assert_eq!(current_value("current value is not 0"), None);
    assert_eq!(current_value("current value 5 is not"), None);
    assert_eq!(current_value("value 5 is not 0"), None);
    assert_eq!(current_value(""), None);
    assert_eq!(current_value("current value 99999999999999999999999999 is not 0"), None);
    assert_eq!(current_value("current value 1 is not 2 current value 3 is not 4"), Some(1));
}

#[test]
fn received_payloads_are_sorted_into_roles() {
    assert_eq!(
        Receive::try_from(Raw::Add { delta: 2 }),
        Ok(Receive::Count(CountReceive::Add { delta: 2 }))
    );
    assert_eq!(Receive::try_from(Raw::Read { key: None }), Ok(Receive::Count(CountReceive::Read)));
    assert_eq!(
        Receive::try_from(Raw::ReadOk { value: 3 }),
        Ok(Receive::Kv(key_value::Receive::ReadOk { value: 3 }))
    );
    assert_eq!(Receive::try_from(Raw::WriteOk), Ok(Receive::Kv(key_value::Receive::WriteOk)));
    assert_eq!(Receive::try_from(Raw::CasOk), Ok(Receive::Kv(key_value::Receive::CasOk)));
    assert_eq!(
        Receive::try_from(Raw::Error { code: Code::KeyNotFound, text: "t".to_string() }),
        Ok(Receive::Kv(key_value::Receive::Error { code: Code::KeyNotFound, text: "t".to_string() }))
    );
    assert_eq!(Receive::try_from(Raw::AddOk), Err(Raw::AddOk));
    assert_eq!(
        Receive::try_from(Raw::Read { key: Some("c".to_string()) }),
        Err(Raw::Read { key: Some("c".to_string()) })
    );
    assert_eq!(
        Receive::try_from(Raw::Write { key: "c".to_string(), value: 1 }),
        Err(Raw::Write { key: "c".to_string(), value: 1 })
    );
    assert_eq!(
        Receive::try_from(Raw::Cas { key: "c".to_string(), from: 1, to: 2 }),
        Err(Raw::Cas { key: "c".to_string(), from: 1, to: 2 })
    );
}

#[test]
fn sent_payloads_take_their_wire_shape() {
    assert_eq!(
        Raw::from(key_value::Send::Read { key: "k".to_string() }),
        Raw::Read { key: Some("k".to_string()) }
    );
    assert_eq!(
        Raw::from(key_value::Send::Write { key: "k".to_string(), value: 4 }),
        Raw::Write { key: "k".to_string(), value: 4 }
    );
    assert_eq!(
        Raw::from(key_value::Send::Cas { key: "k".to_string(), from: 1, to: 2 }),
        Raw::Cas { key: "k".to_string(), from: 1, to: 2 }
    );
    assert_eq!(Raw::from(key_value::Receive::ReadOk { value: 7 }), Raw::ReadOk { value: 7 });
    assert_eq!(Raw::from(key_value::Receive::WriteOk), Raw::WriteOk);
    assert_eq!(Raw::from(key_value::Receive::CasOk), Raw::CasOk);
    assert_eq!(
        Raw::from(key_value::Receive::Error { code: Code::Unknown(1), text: "e".to_string() }),
        Raw::Error { code: Code::Unknown(1), text: "e".to_string() }
    );
    assert_eq!(Raw::from(CountReceive::Add { delta: 1 }), Raw::Add { delta: 1 });
    assert_eq!(Raw::from(CountReceive::Read), Raw::Read { key: None });
    assert_eq!(Raw::from(CountSend::AddOk), Raw::AddOk);
    assert_eq!(Raw::from(CountSend::ReadOk { value: 2 }), Raw::ReadOk { value: 2 });
    assert_eq!(Raw::from(Send::Count(CountSend::AddOk)), Raw::AddOk);
    assert_eq!(
        Raw::from(Send::Kv(key_value::Send::Read { key: "k".to_string() })),
        Raw::Read { key: Some("k".to_string()) }
    );
}

#[test]
fn error_codes_map_to_their_numbers_and_back() {
    assert_eq!(Code::from(20), Code::KeyNotFound);
    assert_eq!(Code::from(22), Code::CasFromMismatch);
    assert_eq!(Code::from(21), Code::Unknown(21));
    assert_eq!(Code::from(0), Code::Unknown(0));
    assert_eq!(u32::from(Code::KeyNotFound), 20);
    assert_eq!(u32::from(Code::CasFromMismatch), 22);
    assert_eq!(u32::from(Code::Unknown(1000)), 1000);
    for number in 0..100u32 {
        assert_eq!(u32::from(Code::from(number)), number);
    }
    assert_eq!(key_value::NODE_ID, "seq-kv");
    assert_eq!(key_value::KEY_NOT_FOUND, 20);
    assert_eq!(key_value::CAS_FROM_MISMATCH, 22);
}
