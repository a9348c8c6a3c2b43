//! Identifiers made for `generate`: their form, and that they differ.

use gossip_node::store::BroadcastStore;
use gossip_node::{EchoNode, Message, MessageBody, Payload};
use std::collections::HashSet;

fn generate(msg_id: usize) -> Message {
    Message {
        src: "c1".to_string(),
        dest: "n1".to_string(),
        body: MessageBody { msg_id: Some(msg_id), in_reply_to: None, payload: Payload::Generate },
    }
}

fn fresh_id(node: &mut EchoNode, store: &mut BroadcastStore, msg_id: usize) -> String {
    match node.step(generate(msg_id), store) {
        Some(Message { body: MessageBody { payload: Payload::GenerateOk { unq_id }, .. }, .. }) => {
            unq_id
        },
        other => panic!("not a generate_ok: {:?}", other),
    }
}

#[test]
fn ten_thousand_identifiers_of_one_node_differ() {
    let mut node = EchoNode::new();
    let mut store = BroadcastStore::new();
    let mut seen: HashSet<String> = HashSet::new();
    for i in 0..10_000 {
        assert!(seen.insert(fresh_id(&mut node, &mut store, i)));
    }
    assert_eq!(seen.len(), 10_000);
    assert_eq!(node.next_id(), 10_001);
}

#[test]
fn identifiers_of_two_nodes_differ() {
    let mut first = EchoNode::new();
    let mut first_store = BroadcastStore::new();
    let mut second = EchoNode::new();
    let mut second_store = BroadcastStore::new();
    let a = fresh_id(&mut first, &mut first_store, 1);
    let b = fresh_id(&mut second, &mut second_store, 1);
    assert_ne!(a, b);
}

#[test]
fn an_identifier_is_the_text_of_a_ulid() {
    let mut node = EchoNode::new();
    let mut store = BroadcastStore::new();
    for i in 0..100 {
        let id = fresh_id(&mut node, &mut store, i);
        assert_eq!(id.chars().count(), 26);
        assert!(id.chars().all(|c| "0123456789ABCDEFGHJKMNPQRSTVWXYZ".contains(c)), "{}", id);
        assert!(id.chars().next().unwrap() <= '7');
        assert_eq!(ulid::Ulid::from_string(&id).unwrap().to_string(), id);
    }
}

#[test]
fn identifiers_are_ordered_by_the_time_of_their_making() {
    let mut node = EchoNode::new();
    let mut store = BroadcastStore::new();
    let earlier = fresh_id(&mut node, &mut store, 1);
    let start = std::time::Instant::now();
    while start.elapsed() < std::time::Duration::from_millis(5) {
        std::hint::spin_loop();
    }
    let later = fresh_id(&mut node, &mut store, 2);
    assert!(earlier < later);
    // The first ten characters hold the time.
    assert!(earlier[..10] <= later[..10]);
}

#[test]
fn a_generate_leaves_the_store_alone() {
    let mut node = EchoNode::new();
    let mut store = BroadcastStore::new();
    store.insert(1);
    fresh_id(&mut node, &mut store, 1);
    assert_eq!(store.read(), vec![1]);
    assert_eq!(store.whoami(), "");
}
