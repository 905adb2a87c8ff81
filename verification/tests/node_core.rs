use gossip_glomers::error::MaelstromError;
use gossip_glomers::message::{Body, NodeId, NodeKind};
use gossip_glomers::node::{complete_rpc, Init};
use gossip_glomers::{MaelstromMessage, Node};

fn client(id: u32) -> NodeId {
    NodeId { kind: NodeKind::Client, id }
}

fn node(id: u32) -> NodeId {
    NodeId { kind: NodeKind::Node, id }
}

fn envelope<P>(src: NodeId, dest: NodeId, msg_id: u64, payload: P) -> MaelstromMessage<P> {
    MaelstromMessage {
        src,
        dest,
        body: Body { msg_id: Some(msg_id), in_reply_to: None, payload },
    }
}

#[test]
fn msg_ids_strictly_increase() {
    let mut n = Node::new(0, vec![node(0)]);
    let m1 = n.send(node(1), 1u64);
    let m2 = n.send(node(1), 2u64);
    let m3 = n.send_rpc(node(1), 3u64);
    assert_eq!(m1.body.msg_id, Some(0));
    assert_eq!(m2.body.msg_id, Some(1));
    assert_eq!(m3.body.msg_id, Some(2));
    assert!(m1.body.msg_id.unwrap() < m2.body.msg_id.unwrap());
    assert!(m2.body.msg_id.unwrap() < m3.body.msg_id.unwrap());
}

#[test]
fn reply_targets_source() {
    let mut n = Node::new(0, vec![node(0)]);
    let request = envelope(client(1), node(0), 7, 99u64);
    let m = n.reply(&request, 100u64);
    assert_eq!(m.src, node(0));
    assert_eq!(m.dest, client(1));
    assert_eq!(m.body.in_reply_to, Some(7));
    assert_eq!(m.body.payload, 100);
}

#[test]
fn send_installs_no_correlation() {
    let mut n = Node::new(0, vec![node(0)]);
    let m = n.send(node(1), 1u64);
    assert!(!n.has_pending(m.body.msg_id.unwrap()));
}

#[test]
fn rpc_correlation_lifecycle() {
    let mut n = Node::new(0, vec![node(0)]);
    let request = n.send_rpc(node(1), 1u64);
    let k = request.body.msg_id.unwrap();
    assert!(n.has_pending(k));
    // the inbound reply routes to and removes the entry
    assert!(n.take_correlation(k));
    assert!(!n.has_pending(k));
    // a late duplicate finds nothing and is dropped
    assert!(!n.take_correlation(k));
}

#[test]
fn timeout_removes_slot_and_late_reply_is_dropped() {
    let mut n = Node::new(0, vec![node(0)]);
    let request = n.send_rpc(node(1), 1u64);
    let k = request.body.msg_id.unwrap();
    // the caller times out: it removes its slot
    assert!(n.take_correlation(k));
    // the reply arriving later finds no waiter
    assert!(!n.take_correlation(k));
}

#[test]
fn completed_rpc_correlates_exactly() {
    let response: MaelstromMessage<Result<u64, MaelstromError>> = MaelstromMessage {
        src: node(1),
        dest: node(0),
        body: Body {
            msg_id: Some(9),
            in_reply_to: Some(4),
            payload: Ok(55),
        },
    };
    // the response is observed only by the RPC whose request had msg_id 4
    assert_eq!(complete_rpc(4, response.clone()), Some(Ok(55)));
    assert_eq!(complete_rpc(5, response.clone()), None);
    let no_corr = MaelstromMessage {
        body: Body {
            in_reply_to: None,
            ..response.body.clone()
        },
        ..response.clone()
    };
    assert_eq!(complete_rpc(4, no_corr), None);
}

#[test]
fn completed_rpc_surfaces_error_payload() {
    let response: MaelstromMessage<Result<u64, MaelstromError>> = MaelstromMessage {
        src: node(1),
        dest: node(0),
        body: Body {
            msg_id: None,
            in_reply_to: Some(4),
            payload: Err(MaelstromError::timeout("late")),
        },
    };
    assert_eq!(
        complete_rpc(4, response),
        Some(Err(MaelstromError::timeout("late")))
    );
}

#[test]
fn init_installs_identity_and_acknowledges() {
    let init = MaelstromMessage {
        src: client(0),
        dest: node(3),
        body: Body {
            msg_id: Some(1),
            in_reply_to: None,
            payload: Init {
                node_id: String::from("n3"),
                node_ids: vec![
                    String::from("n0"),
                    String::from("n1"),
                    String::from("n2"),
                    String::from("n3"),
                ],
            },
        },
    };
    let (n, ack) = Node::init(&init).unwrap();
    assert_eq!(n.id, 3);
    assert_eq!(n.peers, vec![node(0), node(1), node(2), node(3)]);
    assert_eq!(n.next_msg_id, 1);
    assert_eq!(ack.src, node(3));
    assert_eq!(ack.dest, client(0));
    assert_eq!(ack.body.in_reply_to, Some(1));
    assert_eq!(ack.body.msg_id, Some(0));
}

#[test]
fn init_rejects_bad_node_id() {
    let init = MaelstromMessage {
        src: client(0),
        dest: node(0),
        body: Body {
            msg_id: Some(1),
            in_reply_to: None,
            payload: Init {
                node_id: String::from("q3"),
                node_ids: vec![String::from("n0")],
            },
        },
    };
    let e = match Node::init(&init) {
        Err(e) => e,
        Ok(_) => panic!("expected a malformed-request error"),
    };
    assert_eq!(e.code, gossip_glomers::error::MALFORMED_REQUEST);
}
