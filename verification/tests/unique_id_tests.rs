use rustengan::message::{Body, Init, Message};
use rustengan::runtime::Node;
use rustengan::unique_id::{UniqueIdNode, UniqueIdPayload};

fn generate_msg(msg_id: usize) -> Message<UniqueIdPayload> {
    Message {
        src: String::from("c2"),
        dest: String::from("n1"),
        body: Body { id: Some(msg_id), in_reply_to: None, payload: UniqueIdPayload::Generate },
    }
}

fn fresh_node(name: &str) -> UniqueIdNode {
    UniqueIdNode::from_init(Init { node_id: String::from(name), node_ids: vec![String::from(name)] })
}

fn generated_id(node: &mut UniqueIdNode, msg_id: usize) -> String {
    let reply = node.step(generate_msg(msg_id)).expect("generate must draw a reply");
    assert_eq!(reply.src, "n1");
    assert_eq!(reply.dest, "c2");
    assert_eq!(reply.body.in_reply_to, Some(msg_id));
    match reply.body.payload {
        UniqueIdPayload::GenerateOk { guid } => guid,
        _ => panic!("expected generate_ok"),
    }
}

#[test]
fn three_generates_yield_positional_ids() {
    let mut node = fresh_node("n1");
    assert_eq!(generated_id(&mut node, 1), "n1-1");
    assert_eq!(generated_id(&mut node, 2), "n1-2");
    assert_eq!(generated_id(&mut node, 3), "n1-3");
}

#[test]
fn generated_ids_are_pairwise_distinct() {
    let mut node = fresh_node("node-7");
    let mut seen: Vec<String> = Vec::new();
    for k in 0..25 {
        let guid = generated_id(&mut node, k + 100);
        assert_eq!(guid, format!("node-7-{}", k + 1));
        assert!(!seen.contains(&guid));
        seen.push(guid);
    }
}

#[test]
fn unsolicited_generate_ok_is_ignored() {
    let mut node = fresh_node("n1");
    let input = Message {
        src: String::from("c2"),
        dest: String::from("n1"),
        body: Body {
            id: Some(4),
            in_reply_to: Some(2),
            payload: UniqueIdPayload::GenerateOk { guid: String::from("x-1") },
        },
    };
    assert!(node.step(input).is_none());
    assert_eq!(node.id, 1);
    assert_eq!(node.node_id, "n1");
}
