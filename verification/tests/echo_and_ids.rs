use gossip_glomers::echo::{EchoHandler, EchoReply, EchoRequest};
use gossip_glomers::message::{Body, NodeId, NodeKind};
use gossip_glomers::node::Handler;
use gossip_glomers::unique_ids::{
    make_uuid, uuid_node_field, GenerateReply, GenerateRequest, UniqueIdHandler,
};
use gossip_glomers::{MaelstromMessage, Node};
use std::collections::HashSet;

fn client(id: u32) -> NodeId {
    NodeId { kind: NodeKind::Client, id }
}

fn node(id: u32) -> NodeId {
    NodeId { kind: NodeKind::Node, id }
}

#[test]
fn echo_scenario() {
    // {"src":"c1","dest":"n0","body":{"type":"echo","msg_id":7,"echo":"hi"}}
    let mut n = Node::new(0, vec![node(0)]);
    let h = EchoHandler::new();
    let msg = MaelstromMessage {
        src: client(1),
        dest: node(0),
        body: Body {
            msg_id: Some(7),
            in_reply_to: None,
            payload: EchoRequest::Echo { echo: String::from("hi") },
        },
    };
    let reply = h.handle_echo(&mut n, &msg);
    assert_eq!(reply.src, node(0));
    assert_eq!(reply.dest, client(1));
    assert_eq!(reply.body.in_reply_to, Some(7));
    assert!(reply.body.msg_id.is_some());
    let EchoReply::EchoOk { echo } = reply.body.payload;
    assert_eq!(echo, "hi");
}

#[test]
fn echo_is_verbatim_for_various_strings() {
    let mut n = Node::new(0, vec![node(0)]);
    let h = EchoHandler::new();
    for s in ["", "hello world", "Ein Satz, ein Satz!", "{\"nested\":1}"] {
        let msg = MaelstromMessage {
            src: client(2),
            dest: node(0),
            body: Body {
                msg_id: Some(1),
                in_reply_to: None,
                payload: EchoRequest::Echo { echo: String::from(s) },
            },
        };
        let reply = h.handle_echo(&mut n, &msg);
        let EchoReply::EchoOk { echo } = reply.body.payload;
        assert_eq!(echo, s);
    }
}

#[test]
fn echo_through_handler_trait() {
    let mut n = Node::new(0, vec![node(0)]);
    let mut h = EchoHandler::new();
    let msg = MaelstromMessage {
        src: client(1),
        dest: node(0),
        body: Body {
            msg_id: Some(7),
            in_reply_to: None,
            payload: EchoRequest::Echo { echo: String::from("hi") },
        },
    };
    let out = h.handle(&mut n, &msg).unwrap();
    assert_eq!(out.len(), 1);
    let EchoReply::EchoOk { echo } = &out[0].body.payload;
    assert_eq!(echo, "hi");
}

#[test]
fn generated_id_encodes_node_id() {
    // after init with node_id "n3", the 6-byte node field is 3,0,0,0,0,0
    let id = make_uuid(3);
    assert_eq!(uuid_node_field(&id), vec![3, 0, 0, 0, 0, 0]);
    assert_eq!(&id.as_bytes()[10..16], &[3, 0, 0, 0, 0, 0]);
    assert_eq!(id.get_version_num(), 6);
}

#[test]
fn node_field_is_little_endian() {
    let id = make_uuid(0x0102_0304);
    assert_eq!(uuid_node_field(&id), vec![4, 3, 2, 1, 0, 0]);
}

#[test]
fn ids_differ_across_nodes_and_calls() {
    let a = make_uuid(1);
    let b = make_uuid(2);
    assert_ne!(uuid_node_field(&a), uuid_node_field(&b));
    let mut seen = HashSet::new();
    for _ in 0..100 {
        assert!(seen.insert(make_uuid(1)));
    }
}

#[test]
fn generate_reply_carries_node_bound_id() {
    let mut n = Node::new(3, vec![node(3)]);
    let h = UniqueIdHandler::new();
    let msg = MaelstromMessage {
        src: client(1),
        dest: node(3),
        body: Body {
            msg_id: Some(2),
            in_reply_to: None,
            payload: GenerateRequest::Generate,
        },
    };
    let reply = h.handle_generate(&mut n, &msg);
    assert_eq!(reply.dest, client(1));
    assert_eq!(reply.body.in_reply_to, Some(2));
    let GenerateReply::GenerateOk { id } = reply.body.payload;
    assert_eq!(uuid_node_field(&id), vec![3, 0, 0, 0, 0, 0]);
}
