use rustengan::echo::{EchoNode, EchoPayload};
use rustengan::message::{Body, Init, Message};
use rustengan::runtime::Node;

fn echo_msg(msg_id: usize, text: &str) -> Message<EchoPayload> {
    Message {
        src: String::from("c1"),
        dest: String::from("n1"),
        body: Body {
            id: Some(msg_id),
            in_reply_to: None,
            payload: EchoPayload::Echo { echo: String::from(text) },
        },
    }
}

fn fresh_node() -> EchoNode {
    EchoNode::from_init(Init { node_id: String::from("n1"), node_ids: vec![String::from("n1")] })
}

#[test]
fn echo_replies_with_same_text() {
    let mut node = fresh_node();
    let reply = node.step(echo_msg(1, "hi")).expect("echo must draw a reply");
    assert_eq!(reply.src, "n1");
    assert_eq!(reply.dest, "c1");
    assert_eq!(reply.body.id, Some(1));
    assert_eq!(reply.body.in_reply_to, Some(1));
    match reply.body.payload {
        EchoPayload::EchoOk { echo } => assert_eq!(echo, "hi"),
        _ => panic!("expected echo_ok"),
    }
}

#[test]
fn echo_round_trip_over_a_sequence() {
    let mut node = fresh_node();
    let texts = ["alpha", "beta", "alpha", ""];
    for (k, text) in texts.iter().enumerate() {
        let reply = node.step(echo_msg(k + 10, text)).expect("echo must draw a reply");
        assert_eq!(reply.body.id, Some(k + 1));
        assert_eq!(reply.body.in_reply_to, Some(k + 10));
        match reply.body.payload {
            EchoPayload::EchoOk { echo } => assert_eq!(&echo, text),
            _ => panic!("expected echo_ok"),
        }
    }
    assert_eq!(node.id, 5);
}

#[test]
fn unsolicited_echo_ok_is_ignored() {
    let mut node = fresh_node();
    let input = Message {
        src: String::from("c1"),
        dest: String::from("n1"),
        body: Body {
            id: Some(9),
            in_reply_to: Some(3),
            payload: EchoPayload::EchoOk { echo: String::from("stale") },
        },
    };
    assert!(node.step(input).is_none());
    assert_eq!(node.id, 1);
}
