use rustengan::broadcast::{BroadcastNode, BroadcastPayload};
use rustengan::message::{Body, Init, Message};
use rustengan::runtime::Node;

fn msg(msg_id: usize, payload: BroadcastPayload) -> Message<BroadcastPayload> {
    Message {
        src: String::from("c3"),
        dest: String::from("n2"),
        body: Body { id: Some(msg_id), in_reply_to: None, payload },
    }
}

fn fresh_node() -> BroadcastNode {
    BroadcastNode::from_init(Init {
        node_id: String::from("n2"),
        node_ids: vec![String::from("n1"), String::from("n2")],
    })
}

fn read_log(node: &mut BroadcastNode, msg_id: usize) -> Vec<i32> {
    let reply = node.step(msg(msg_id, BroadcastPayload::Read)).expect("read must draw a reply");
    match reply.body.payload {
        BroadcastPayload::ReadOk { messages } => messages,
        _ => panic!("expected read_ok"),
    }
}

#[test]
fn broadcast_then_read_returns_log_in_order() {
    let mut node = fresh_node();
    for (k, value) in [5, 5, -3].iter().enumerate() {
        let reply = node
            .step(msg(k + 1, BroadcastPayload::Broadcast { message: *value }))
            .expect("broadcast must draw a reply");
        assert!(matches!(reply.body.payload, BroadcastPayload::BroadcastOk));
        assert_eq!(reply.body.id, Some(k + 1));
        assert_eq!(reply.body.in_reply_to, Some(k + 1));
    }
    assert_eq!(read_log(&mut node, 4), vec![5, 5, -3]);
}

#[test]
fn duplicate_broadcasts_are_kept() {
    let mut node = fresh_node();
    node.step(msg(1, BroadcastPayload::Broadcast { message: 5 })).unwrap();
    node.step(msg(2, BroadcastPayload::Broadcast { message: 5 })).unwrap();
    assert_eq!(read_log(&mut node, 3), vec![5, 5]);
}

#[test]
fn read_on_fresh_node_is_empty() {
    let mut node = fresh_node();
    assert_eq!(read_log(&mut node, 1), Vec::<i32>::new());
}

#[test]
fn topology_draws_exactly_one_topology_ok() {
    let mut node = fresh_node();
    let topology = vec![
        (String::from("n1"), vec![String::from("n2")]),
        (String::from("n2"), vec![String::from("n1")]),
    ];
    let reply = node
        .step(msg(7, BroadcastPayload::Topology { topology }))
        .expect("topology must draw a reply");
    assert!(matches!(reply.body.payload, BroadcastPayload::TopologyOk));
    assert_eq!(reply.src, "n2");
    assert_eq!(reply.dest, "c3");
    assert_eq!(reply.body.in_reply_to, Some(7));
    assert_eq!(node.topology.len(), 2);
}

#[test]
fn empty_topology_is_acknowledged_too() {
    let mut node = fresh_node();
    let reply = node
        .step(msg(1, BroadcastPayload::Topology { topology: Vec::new() }))
        .expect("topology must draw a reply");
    assert!(matches!(reply.body.payload, BroadcastPayload::TopologyOk));
}

#[test]
fn topology_missing_own_entry_is_acknowledged() {
    let mut node = fresh_node();
    let topology = vec![(String::from("n1"), vec![String::from("n3")])];
    let reply = node
        .step(msg(2, BroadcastPayload::Topology { topology }))
        .expect("topology must draw a reply");
    assert!(matches!(reply.body.payload, BroadcastPayload::TopologyOk));
}

#[test]
fn acknowledgement_payloads_are_ignored() {
    let mut node = fresh_node();
    assert!(node.step(msg(1, BroadcastPayload::BroadcastOk)).is_none());
    assert!(node.step(msg(2, BroadcastPayload::ReadOk { messages: vec![1] })).is_none());
    assert!(node.step(msg(3, BroadcastPayload::TopologyOk)).is_none());
    assert_eq!(node.id, 1);
    assert!(node.messages.is_empty());
}

#[test]
fn reply_ids_count_every_reply_sent() {
    let mut node = fresh_node();
    let r1 = node.step(msg(1, BroadcastPayload::Broadcast { message: 9 })).unwrap();
    assert_eq!(r1.body.id, Some(1));
    // An ignored acknowledgement does not consume an id.
    assert!(node.step(msg(2, BroadcastPayload::BroadcastOk)).is_none());
    let r2 = node.step(msg(3, BroadcastPayload::Read)).unwrap();
    assert_eq!(r2.body.id, Some(2));
    let r3 = node.step(msg(4, BroadcastPayload::Topology { topology: Vec::new() })).unwrap();
    assert_eq!(r3.body.id, Some(3));
}
