//! Which payload is answered with what, and what it does to the store.

use gossip_node::store::BroadcastStore;
use gossip_node::{EchoNode, Gossiped, Message, MessageBody, Payload};

fn request(msg_id: usize, payload: Payload) -> Message {
    Message {
        src: "c1".to_string(),
        dest: "n1".to_string(),
        body: MessageBody { msg_id: Some(msg_id), in_reply_to: None, payload },
    }
}

fn answer_of(out: Option<Message>) -> Payload {
    match out {
        Some(reply) => reply.body.payload,
        None => panic!("no reply"),
    }
}

fn sorted(mut values: Vec<usize>) -> Vec<usize> {
    values.sort();
    values
}

fn strings(items: &[&str]) -> Vec<String> {
    items.iter().map(|s| s.to_string()).collect()
}

#[test]
fn every_request_gets_its_own_kind_of_acknowledgment() {
    let mut node = EchoNode::new();
    let mut store = BroadcastStore::new();
    let init = Payload::Init { node_id: "n1".to_string(), node_ids: strings(&["n1"]) };
    assert_eq!(answer_of(node.step(request(10, init), &mut store)), Payload::InitOk);
    let echo = Payload::Echo { echo: "hi".to_string() };
    assert_eq!(
        answer_of(node.step(request(11, echo), &mut store)),
        Payload::EchoOk { echo: "hi".to_string() }
    );
    assert!(matches!(
        answer_of(node.step(request(12, Payload::Generate), &mut store)),
        Payload::GenerateOk { .. }
    ));
    assert_eq!(
        answer_of(node.step(request(13, Payload::Broadcast { message: 8 }), &mut store)),
        Payload::BroadcastOk
    );
    assert_eq!(
        answer_of(node.step(request(14, Payload::Read), &mut store)),
        Payload::ReadOk { messages: vec![8] }
    );
    let topology = Payload::Topology { topology: vec![("n1".to_string(), strings(&["n2"]))] };
    assert_eq!(answer_of(node.step(request(15, topology), &mut store)), Payload::TopologyOk);
}

#[test]
fn every_reply_refers_to_its_request() {
    let mut node = EchoNode::new();
    let mut store = BroadcastStore::new();
    let requests = vec![
        (40, Payload::Init { node_id: "n1".to_string(), node_ids: vec![] }),
        (7, Payload::Echo { echo: "x".to_string() }),
        (7, Payload::Generate),
        (1000, Payload::Broadcast { message: 1 }),
        (0, Payload::Read),
        (usize::MAX, Payload::Topology { topology: vec![] }),
    ];
    let mut expected_id = 1;
    for (msg_id, payload) in requests {
        let input = Message {
            src: format!("c{}", msg_id),
            dest: "n1".to_string(),
            body: MessageBody { msg_id: Some(msg_id), in_reply_to: None, payload },
        };
        let reply = node.step(input, &mut store).unwrap();
        assert_eq!(reply.body.in_reply_to, Some(msg_id));
        assert_eq!(reply.body.msg_id, Some(expected_id));
        assert_eq!(reply.src, "n1");
        assert_eq!(reply.dest, format!("c{}", msg_id));
        expected_id += 1;
    }
    assert_eq!(node.next_id(), 7);
}

#[test]
fn replies_that_arrive_as_input_are_ignored() {
    let mut node = EchoNode::new();
    let mut store = BroadcastStore::new();
    node.step(request(1, Payload::Broadcast { message: 5 }), &mut store);
    let strays = vec![
        Payload::InitOk,
        Payload::EchoOk { echo: "x".to_string() },
        Payload::GenerateOk { unq_id: "01D39ZY06FGSCTVN4T2V9PKHFZ".to_string() },
        Payload::BroadcastOk,
        Payload::ReadOk { messages: vec![1, 2, 3] },
        Payload::TopologyOk,
        Payload::Error { code: 13, text: "crash".to_string() },
    ];
    for payload in strays {
        assert_eq!(node.step(request(2, payload), &mut store), None);
        assert_eq!(node.next_id(), 2);
        assert_eq!(store.read(), vec![5]);
        assert_eq!(store.whoami(), "");
        assert!(store.neighbors().is_empty());
    }
}

#[test]
fn gossip_is_taken_in_and_not_answered() {
    let mut node = EchoNode::new();
    let mut store = BroadcastStore::new();
    node.step(request(1, Payload::Broadcast { message: 2 }), &mut store);
    let incoming: Gossiped = [1, 2, 3].into_iter().collect();
    let input = Message {
        src: "n2".to_string(),
        dest: "n1".to_string(),
        body: MessageBody {
            msg_id: Some(1000),
            in_reply_to: None,
            payload: Payload::GossipBroadcast { message: incoming },
        },
    };
    assert_eq!(node.step(input, &mut store), None);
    assert_eq!(node.next_id(), 2);
    assert_eq!(sorted(store.read()), vec![1, 2, 3]);
}

#[test]
fn read_returns_each_value_once() {
    let mut node = EchoNode::new();
    let mut store = BroadcastStore::new();
    for (i, value) in [3, 1, 3, 2].into_iter().enumerate() {
        let out = node.step(request(i, Payload::Broadcast { message: value }), &mut store);
        assert_eq!(answer_of(out), Payload::BroadcastOk);
    }
    match answer_of(node.step(request(9, Payload::Read), &mut store)) {
        Payload::ReadOk { messages } => assert_eq!(sorted(messages), vec![1, 2, 3]),
        other => panic!("not a read_ok: {:?}", other),
    }
}

#[test]
fn a_value_submitted_twice_is_held_once() {
    let mut store = BroadcastStore::new();
    store.insert(4);
    assert_eq!(store.read(), vec![4]);
    store.insert(4);
    assert_eq!(store.read(), vec![4]);
    assert!(store.contains(4));
    assert!(!store.contains(5));
}

#[test]
fn values_gossiped_twice_are_held_once() {
    let mut store = BroadcastStore::new();
    let incoming: Gossiped = [7, 9].into_iter().collect();
    store.absorb(&incoming);
    assert_eq!(sorted(store.read()), vec![7, 9]);
    store.absorb(&incoming);
    assert_eq!(sorted(store.read()), vec![7, 9]);
    store.absorb(&Gossiped::new());
    assert_eq!(sorted(store.read()), vec![7, 9]);
}

#[test]
fn values_are_never_lost() {
    let mut node = EchoNode::new();
    let mut store = BroadcastStore::new();
    node.step(request(1, Payload::Broadcast { message: 17 }), &mut store);
    let others = vec![
        Payload::Init { node_id: "n1".to_string(), node_ids: vec![] },
        Payload::Echo { echo: "e".to_string() },
        Payload::Generate,
        Payload::Broadcast { message: 18 },
        Payload::Read,
        Payload::Topology { topology: vec![("n1".to_string(), strings(&["n2"]))] },
        Payload::GossipBroadcast { message: [19].into_iter().collect() },
        Payload::BroadcastOk,
    ];
    for payload in others {
        node.step(request(2, payload), &mut store);
        assert!(store.contains(17));
    }
    node.gossip_round(&store);
    assert_eq!(sorted(store.read()), vec![17, 18, 19]);
}

#[test]
fn a_snapshot_holds_what_the_store_holds() {
    let mut store = BroadcastStore::new();
    assert_eq!(store.snapshot(), Gossiped::new());
    store.insert(1);
    store.insert(usize::MAX);
    let expected: Gossiped = [1, usize::MAX].into_iter().collect();
    assert_eq!(store.snapshot(), expected);
}

#[test]
fn a_later_topology_replaces_the_list_of_an_address() {
    let mut node = EchoNode::new();
    let mut store = BroadcastStore::new();
    let first = Payload::Topology {
        topology: vec![("a".to_string(), strings(&["b"])), ("x".to_string(), strings(&["y", "z"]))],
    };
    let second = Payload::Topology { topology: vec![("a".to_string(), strings(&["c"]))] };
    assert_eq!(answer_of(node.step(request(1, first), &mut store)), Payload::TopologyOk);
    assert_eq!(store.adjacency("a"), Some(&strings(&["b"])));
    assert_eq!(answer_of(node.step(request(2, second), &mut store)), Payload::TopologyOk);
    assert_eq!(store.adjacency("a"), Some(&strings(&["c"])));
    assert_eq!(store.adjacency("x"), Some(&strings(&["y", "z"])));
    assert_eq!(store.adjacency("b"), None);
}

#[test]
fn of_two_entries_for_one_address_the_later_counts() {
    let mut store = BroadcastStore::new();
    store.merge_topology(vec![
        ("a".to_string(), strings(&["b"])),
        ("c".to_string(), strings(&[])),
        ("a".to_string(), strings(&["d", "e"])),
    ]);
    assert_eq!(store.adjacency("a"), Some(&strings(&["d", "e"])));
    assert_eq!(store.adjacency("c"), Some(&strings(&[])));
    store.merge_topology(vec![]);
    assert_eq!(store.adjacency("a"), Some(&strings(&["d", "e"])));
}

#[test]
fn a_generate_is_answered_with_the_identifier_handed_in() {
    let mut node = EchoNode::new();
    let mut store = BroadcastStore::new();
    let out = node.step_with(request(3, Payload::Generate), &mut store, "abc".to_string());
    assert_eq!(answer_of(out), Payload::GenerateOk { unq_id: "abc".to_string() });
    let out = node.step_with(request(4, Payload::Read), &mut store, "unused".to_string());
    assert_eq!(answer_of(out), Payload::ReadOk { messages: vec![] });
    assert_eq!(node.next_id(), 3);
}

#[test]
fn a_new_store_is_empty() {
    let store = BroadcastStore::default();
    assert_eq!(store.whoami(), "");
    assert!(store.read().is_empty());
    assert!(store.neighbors().is_empty());
    assert_eq!(store.adjacency(""), None);
}

#[test]
fn a_copy_of_an_envelope_equals_it() {
    let payloads = vec![
        Payload::Init { node_id: "n1".to_string(), node_ids: strings(&["n1", "n2"]) },
        Payload::InitOk,
        Payload::Error { code: 11, text: "t".to_string() },
        Payload::Echo { echo: "e".to_string() },
        Payload::EchoOk { echo: "e".to_string() },
        Payload::Generate,
        Payload::GenerateOk { unq_id: "u".to_string() },
        Payload::Broadcast { message: 3 },
        Payload::BroadcastOk,
        Payload::Read,
        Payload::ReadOk { messages: vec![3, 1, 2] },
        Payload::Topology {
            topology: vec![("a".to_string(), strings(&["b", "c"])), ("b".to_string(), vec![])],
        },
        Payload::TopologyOk,
        Payload::GossipBroadcast { message: [5, 6].into_iter().collect() },
    ];
    for payload in payloads {
        let envelope = Message {
            src: "s".to_string(),
            dest: "d".to_string(),
            body: MessageBody { msg_id: Some(1), in_reply_to: Some(2), payload },
        };
        let copy = envelope.clone();
        assert_eq!(copy, envelope);
    }
}

#[test]
fn six_kinds_of_payload_are_requests() {
    let requests = vec![
        Payload::Init { node_id: "n1".to_string(), node_ids: vec![] },
        Payload::Echo { echo: "e".to_string() },
        Payload::Generate,
        Payload::Broadcast { message: 0 },
        Payload::Read,
        Payload::Topology { topology: vec![] },
    ];
    for payload in requests {
        assert!(payload.is_request(), "{:?}", payload);
    }
    let others = vec![
        Payload::InitOk,
        Payload::Error { code: 0, text: "t".to_string() },
        Payload::EchoOk { echo: "e".to_string() },
        Payload::GenerateOk { unq_id: "u".to_string() },
        Payload::BroadcastOk,
        Payload::ReadOk { messages: vec![] },
        Payload::TopologyOk,
        Payload::GossipBroadcast { message: Gossiped::new() },
    ];
    for payload in others {
        assert!(!payload.is_request(), "{:?}", payload);
    }
}

#[test]
fn a_read_changes_nothing() {
    let mut node = EchoNode::new();
    let mut store = BroadcastStore::new();
    node.step(request(1, Payload::Broadcast { message: 6 }), &mut store);
    node.step(request(2, Payload::Broadcast { message: 4 }), &mut store);
    let first = answer_of(node.step(request(3, Payload::Read), &mut store));
    let second = answer_of(node.step(request(4, Payload::Read), &mut store));
    match (first, second) {
        (Payload::ReadOk { messages: a }, Payload::ReadOk { messages: b }) => {
            assert_eq!(sorted(a), vec![4, 6]);
            assert_eq!(sorted(b), vec![4, 6]);
        },
        other => panic!("not two read_ok: {:?}", other),
    }
    assert_eq!(sorted(store.read()), vec![4, 6]);
    assert_eq!(node.next_id(), 5);
}
