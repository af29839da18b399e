use std::collections::{HashMap, HashSet};
use telephone_line::gossip::{
    chance, compose, elements, partition, reaffirm, Broadcast, Event, ModeError, Params, Payload,
};
use telephone_line::{Body, Init, Message, Node, NodeError};

fn node(id: &str, peers: &[&str], params: Params) -> Broadcast {
    Broadcast::from_init(
        Init { node_id: id.to_string(), node_ids: peers.iter().map(|p| p.to_string()).collect() },
        1,
        params,
    )
}

fn message(src: &str, dest: &str, msg_id: Option<usize>, payload: Payload) -> Message<Payload> {
    Message {
        src: src.to_string(),
        dest: dest.to_string(),
        body: Body { msg_id, in_reply_to: None, payload },
    }
}

fn set(values: &[usize]) -> HashSet<usize> {
    values.iter().copied().collect()
}

fn read(node: &mut Broadcast) -> HashSet<usize> {
    let out = node.step_message(message("c1", "n", Some(77), Payload::Read)).unwrap();
    assert_eq!(out.len(), 1);
    match &out[0].body.payload {
        Payload::ReadOk { messages } => messages.clone(),
        other => panic!("unexpected payload {:?}", other),
    }
}

fn gossip_of(message: &Message<Payload>) -> HashSet<usize> {
    match &message.body.payload {
        Payload::Gossip { messages } => messages.clone(),
        other => panic!("unexpected payload {:?}", other),
    }
}

#[test]
fn broadcast_without_neighbors_is_read_at_once() {
    let mut a = node("a", &[], Params::default_mode());
    let out = a.step_message(message("c1", "a", Some(1), Payload::Broadcast { message: 42 })).unwrap();
    assert_eq!(out.len(), 1);
    assert_eq!(out[0].src, "a");
    assert_eq!(out[0].dest, "c1");
    assert_eq!(out[0].body.msg_id, Some(1));
    assert_eq!(out[0].body.in_reply_to, Some(1));
    assert_eq!(out[0].body.payload, Payload::BroadcastOk);
    assert_eq!(read(&mut a), set(&[42]));
    assert_eq!(a.messages(), set(&[42]));
    assert!(a.step_event(Event::StartGossip).unwrap().is_empty());
}

#[test]
fn broadcast_is_idempotent() {
    let mut a = node("a", &["a", "b"], Params::default_mode());
    for request in 0..3 {
        a.step_message(message("c1", "a", Some(request), Payload::Broadcast { message: 7 })).unwrap();
    }
    a.step_message(message("c1", "a", Some(4), Payload::Broadcast { message: 8 })).unwrap();
    assert_eq!(read(&mut a), set(&[7, 8]));
}

#[test]
fn topology_is_acknowledged_and_ignored() {
    let mut a = node("a", &["a", "b"], Params::default_mode());
    let mut topology = HashMap::new();
    topology.insert("a".to_string(), vec!["zzz".to_string()]);
    let out = a.step_message(message("c1", "a", Some(3), Payload::Topology { topology })).unwrap();
    assert_eq!(out.len(), 1);
    assert_eq!(out[0].body.payload, Payload::TopologyOk);
    assert_eq!(out[0].body.in_reply_to, Some(3));
    assert_eq!(a.peers(), vec!["a".to_string(), "b".to_string()]);
}

#[test]
fn replies_are_refused_as_requests() {
    for payload in [Payload::BroadcastOk, Payload::ReadOk { messages: set(&[1]) }, Payload::TopologyOk] {
        let mut a = node("a", &["b"], Params::default_mode());
        assert_eq!(a.step_message(message("b", "a", None, payload)), Err(NodeError::UnexpectedPayload));
    }
}

#[test]
fn peers_are_the_announced_nodes_each_once() {
    let a = node("a", &["b", "c", "b", "a", "c"], Params::default_mode());
    assert_eq!(a.peers(), vec!["b".to_string(), "c".to_string(), "a".to_string()]);
    assert_eq!(a.peer_knows(0), Some(HashSet::new()));
    assert_eq!(a.peer_knows(2), Some(HashSet::new()));
    assert_eq!(a.peer_knows(3), None);
    assert_eq!(a.msg_id(), 1);
    assert_eq!(a.params(), Params::default_mode());
}

#[test]
fn gossip_is_merged_and_credited_to_its_sender() {
    let mut a = node("a", &["b", "c"], Params::default_mode());
    a.step_message(message("c1", "a", Some(1), Payload::Broadcast { message: 1 })).unwrap();
    let out =
        a.step_message(message("c", "a", None, Payload::Gossip { messages: set(&[2, 3]) })).unwrap();
    assert!(out.is_empty());
    assert_eq!(a.messages(), set(&[1, 2, 3]));
    assert_eq!(a.peer_knows(0), Some(HashSet::new()));
    assert_eq!(a.peer_knows(1), Some(set(&[2, 3])));
    assert_eq!(a.msg_id(), 3);
}

#[test]
fn gossip_from_an_unknown_node_is_an_error() {
    let mut a = node("a", &["b"], Params::default_mode());
    let result = a.step_message(message("x", "a", None, Payload::Gossip { messages: set(&[2]) }));
    assert_eq!(result, Err(NodeError::UnknownGossipNode));
    assert_eq!(a.messages(), set(&[2]));
    assert_eq!(a.peer_knows(0), Some(HashSet::new()));
}

#[test]
fn a_round_tells_each_peer_what_it_lacks() {
    let mut a = node("a", &["b", "c"], Params::default_mode());
    for value in [1, 2, 3] {
        a.step_message(message("c1", "a", None, Payload::Broadcast { message: value })).unwrap();
    }
    a.step_message(message("c", "a", None, Payload::Gossip { messages: set(&[3, 4]) })).unwrap();
    let before = a.msg_id();
    let out = a.step_event(Event::StartGossip).unwrap();
    assert_eq!(out.len(), 2);
    assert_eq!(out[0].src, "a");
    assert_eq!(out[0].dest, "b");
    assert_eq!(out[0].body.msg_id, None);
    assert_eq!(out[0].body.in_reply_to, None);
    assert_eq!(gossip_of(&out[0]), set(&[1, 2, 3, 4]));
    assert_eq!(out[1].dest, "c");
    assert_eq!(gossip_of(&out[1]), set(&[1, 2, 3, 4]));
    assert_eq!(a.msg_id(), before);
    assert_eq!(a.peer_knows(0), Some(HashSet::new()));
    assert_eq!(a.peer_knows(1), Some(set(&[3, 4])));
}

#[test]
fn a_round_with_no_allowance_passes_over_a_peer_that_lacks_nothing() {
    let quiet = Params { gossip_interval_ms: 10, additional_cap_percent: 0, additional_cap_floor: 0 };
    let mut a = node("a", &["b", "c"], quiet);
    a.step_message(message("b", "a", None, Payload::Gossip { messages: set(&[1, 2]) })).unwrap();
    for _ in 0..20 {
        let out = a.step_event(Event::StartGossip).unwrap();
        assert_eq!(out.len(), 1);
        assert_eq!(out[0].dest, "c");
        assert_eq!(gossip_of(&out[0]), set(&[1, 2]));
    }
}

#[test]
fn a_round_repeats_no_more_than_the_cap() {
    let mut a = node("a", &["b"], Params::default_mode());
    let known: Vec<usize> = (0..60).collect();
    a.step_message(message("b", "a", None, Payload::Gossip { messages: set(&known) })).unwrap();
    for value in 100..105 {
        a.step_message(message("c1", "a", None, Payload::Broadcast { message: value })).unwrap();
    }
    for _ in 0..50 {
        let out = a.step_event(Event::StartGossip).unwrap();
        assert_eq!(out.len(), 1);
        let payload = gossip_of(&out[0]);
        assert!((100..105).all(|value| payload.contains(&value)));
        assert!(payload.iter().all(|value| *value < 60 || (100..105).contains(value)));
        assert!(payload.len() <= 5 + 10);
    }
}

#[test]
fn two_nodes_converge_after_one_exchange() {
    let mut a = node("a", &["a", "b"], Params::default_mode());
    let mut b = node("b", &["a", "b"], Params::default_mode());
    for value in [1, 2, 3] {
        a.step_message(message("c1", "a", None, Payload::Broadcast { message: value })).unwrap();
    }
    for value in [3, 4] {
        b.step_message(message("c1", "b", None, Payload::Broadcast { message: value })).unwrap();
    }
    for envelope in a.step_event(Event::StartGossip).unwrap() {
        if envelope.dest == "b" {
            assert!(b.step_message(envelope).unwrap().is_empty());
        }
    }
    assert_eq!(read(&mut b), set(&[1, 2, 3, 4]));
    for envelope in b.step_event(Event::StartGossip).unwrap() {
        if envelope.dest == "a" {
            a.step_message(envelope).unwrap();
        }
    }
    assert_eq!(read(&mut a), set(&[1, 2, 3, 4]));
    assert_eq!(a.peer_knows(1), Some(set(&[1, 2, 3, 4])));
    assert_eq!(b.peer_knows(0), Some(set(&[1, 2, 3])));
}

#[test]
fn a_peer_known_to_have_everything_is_reaffirmed_within_the_floor() {
    let mut b = node("b", &["a"], Params::default_mode());
    b.step_message(message("a", "b", None, Payload::Gossip { messages: set(&[1, 2, 3]) })).unwrap();
    for _ in 0..10 {
        let out = b.step_event(Event::StartGossip).unwrap();
        assert_eq!(out.len(), 1);
        assert_eq!(out[0].dest, "a");
        assert_eq!(gossip_of(&out[0]), set(&[1, 2, 3]));
    }
}

#[test]
fn cap_is_the_share_but_at_least_the_floor() {
    let params = Params::default_mode();
    assert_eq!(params.calculate_cap(0), 10);
    assert_eq!(params.calculate_cap(99), 10);
    assert_eq!(params.calculate_cap(109), 10);
    assert_eq!(params.calculate_cap(110), 11);
    assert_eq!(params.calculate_cap(1234), 123);
    let wide = Params { gossip_interval_ms: 1, additional_cap_percent: 250, additional_cap_floor: 3 };
    assert_eq!(wide.calculate_cap(1), 3);
    assert_eq!(wide.calculate_cap(2), 5);
    assert_eq!(wide.calculate_cap(usize::MAX), u32::MAX);
    let none = Params { gossip_interval_ms: 1, additional_cap_percent: 0, additional_cap_floor: 0 };
    assert_eq!(none.calculate_cap(1000), 0);
    for lacking in 0..2000usize {
        assert!(params.calculate_cap(lacking) as usize <= lacking / 10 + 10);
    }
}

#[test]
fn presets_differ_in_their_interval_only() {
    assert_eq!(
        Params::default_mode(),
        Params { gossip_interval_ms: 530, additional_cap_percent: 10, additional_cap_floor: 10 }
    );
    assert_eq!(Params::low_latency().gossip_interval_ms, 400);
    assert_eq!(Params::low_bandwidth().gossip_interval_ms, 1500);
    assert_eq!(Params::low_latency().additional_cap_floor, 10);
    assert_eq!(Params::low_bandwidth().additional_cap_percent, 10);
    let a = node("a", &["b"], Params::low_latency());
    assert_eq!(a.timer(), Some((400, Event::StartGossip)));
}

#[test]
fn arguments_select_the_preset() {
    assert_eq!(Params::from_args(&vec![]), Ok(Params::default_mode()));
    assert_eq!(Params::from_args(&vec!["--low-latency".to_string()]), Ok(Params::low_latency()));
    assert_eq!(Params::from_args(&vec!["--low-bandwidth".to_string()]), Ok(Params::low_bandwidth()));
    assert_eq!(
        Params::from_args(&vec!["--fast".to_string()]),
        Err(ModeError::UnknownArgument { argument: "--fast".to_string() })
    );
    assert_eq!(
        Params::from_args(&vec!["--fast".to_string(), "--low-latency".to_string()]),
        Err(ModeError::UnknownArgument { argument: "--fast".to_string() })
    );
    assert_eq!(
        Params::from_args(&vec!["--low-latency".to_string(), "more".to_string()]),
        Err(ModeError::ExtraArgument { argument: "more".to_string() })
    );
}

#[test]
fn partition_sorts_by_the_peers_knowledge() {
    let (already_known, notify_of) = partition(&set(&[1, 2, 3, 4]), &set(&[2, 4, 9]));
    assert_eq!(already_known.iter().copied().collect::<HashSet<_>>(), set(&[2, 4]));
    assert_eq!(notify_of.iter().copied().collect::<HashSet<_>>(), set(&[1, 3]));
    assert_eq!(already_known.len(), 2);
    assert_eq!(notify_of.len(), 2);
    let mut all = elements(&set(&[5, 6, 7]));
    all.sort();
    assert_eq!(all, vec![5, 6, 7]);
}

#[test]
fn reaffirm_takes_the_drawn_values_up_to_the_cap() {
    let known = vec![10, 11, 12, 13, 14];
    assert_eq!(reaffirm(&known, &vec![true, false, true, true, true], 2), vec![10, 12]);
    assert_eq!(reaffirm(&known, &vec![true, false, true, true, true], 10), vec![10, 12, 13, 14]);
    assert_eq!(reaffirm(&known, &vec![false; 5], 10), Vec::<usize>::new());
    assert_eq!(reaffirm(&known, &vec![true; 5], 0), Vec::<usize>::new());
    assert_eq!(reaffirm(&known, &vec![true, true], 10), vec![10, 11]);
    assert_eq!(reaffirm(&Vec::new(), &vec![true, true], 10), Vec::<usize>::new());
    assert_eq!(
        compose(&vec![1, 2], &known, &vec![false, true, false, false, true], 1),
        set(&[1, 2, 11])
    );
}

#[test]
fn used_up_identifiers_stop_the_node() {
    let mut a = Broadcast::from_init(
        Init { node_id: "a".to_string(), node_ids: vec![] },
        usize::MAX,
        Params::default_mode(),
    );
    assert_eq!(
        a.step_message(message("c1", "a", None, Payload::Broadcast { message: 1 })),
        Err(NodeError::MsgIdExhausted)
    );
    assert!(a.messages().is_empty());
}

#[test]
fn payload_clone_copies_the_sets() {
    let payload = Payload::Gossip { messages: set(&[1, 2, 3]) };
    assert_eq!(payload.clone(), payload);
    let mut topology = HashMap::new();
    topology.insert("a".to_string(), vec!["b".to_string()]);
    let payload = Payload::Topology { topology };
    assert_eq!(payload.clone(), payload);
    assert_eq!(Payload::ReadOk { messages: set(&[9]) }.clone(), Payload::ReadOk { messages: set(&[9]) });
}

#[test]
fn chance_is_the_cap_out_of_the_count() {
    assert_eq!(chance(10, 60), (10, 60));
    assert_eq!(chance(10, 10), (10, 10));
    assert_eq!(chance(10, 3), (3, 3));
    assert_eq!(chance(0, 5), (0, 5));
    assert_eq!(chance(5, 0), (0, 0));
    assert_eq!(chance(u32::MAX, 1), (1, 1));
}
