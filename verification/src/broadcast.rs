//! The broadcast workload: the observed-value set, the per-neighbor unacked
//! sets, and the handlers for `broadcast`, `read`, `topology`, `gossip` and
//! `gossip_ack`. Gossip is at-least-once: values stay in a neighbor's
//! unacked set, re-sent by the periodic `gossip` pass, until that neighbor
//! acknowledges them.

use vstd::prelude::*;

use crate::error::MaelstromError;
use crate::message::{MaelstromMessage, NodeId};
use crate::node::{Handler, Node};

verus! {

broadcast use vstd::seq_lib::lemma_seq_contains_after_push;

/// The tagged payload union of the broadcast workload, requests and
/// responses alike.
#[derive(Clone, Debug)]
pub enum BroadcastPayload {
    Broadcast { message: u64 },
    BroadcastOk,
    Read,
    ReadOk { messages: Vec<u64> },
    Topology { topology: Vec<(NodeId, Vec<NodeId>)> },
    TopologyOk,
    Gossip { messages: Vec<u64> },
    GossipAck { messages: Vec<u64> },
}

pub open spec fn no_dups(s: Seq<u64>) -> bool {
    forall|i: int, j: int| 0 <= i < j < s.len() ==> #[trigger] s[i] != #[trigger] s[j]
}

fn contains_value(v: &Vec<u64>, x: u64) -> (r: bool)
    ensures
        r == v@.contains(x),
{
    let mut i: usize = 0;
    while i < v.len()
        invariant
            0 <= i <= v@.len(),
            forall|k: int| 0 <= k < i ==> v@[k] != x,
        decreases v@.len() - i,
    {
        if v[i] == x {
            return true;
        }
        i = i + 1;
    }
    proof {
        if v@.contains(x) {
            let w = choose|w: int| 0 <= w < v@.len() && v@[w] == x;
        }
    }
    false
}

/// Inserts a value into a duplicate-free vector, set-wise.
fn insert_value(v: &mut Vec<u64>, x: u64)
    requires
        no_dups(old(v)@),
    ensures
        no_dups(final(v)@),
        forall|k: u64| final(v)@.contains(k) <==> old(v)@.contains(k) || k == x,
{
    if !contains_value(v, x) {
        let ghost v0 = v@;
        v.push(x);
        proof {
            assert forall|a: int, b: int| 0 <= a < b < v@.len() implies v@[a] != v@[b] by {
                if b < v0.len() {
                } else {
                    assert(v@[b] == x);
                    assert(v0[a] == v@[a]);
                    if v@[a] == x {
                        assert(v0.contains(x));
                    }
                }
            }
        }
    }
}

fn copy_values(v: &Vec<u64>) -> (r: Vec<u64>)
    ensures
        r@ == v@,
{
    let mut r: Vec<u64> = Vec::new();
    let mut i: usize = 0;
    while i < v.len()
        invariant
            0 <= i <= v@.len(),
            r@ =~= v@.take(i as int),
        decreases v@.len() - i,
    {
        r.push(v[i]);
        proof {
            assert(r@ =~= v@.take(i as int + 1));
        }
        i = i + 1;
    }
    proof {
        assert(v@.take(v@.len() as int) =~= v@);
    }
    r
}

fn copy_ids(v: &Vec<NodeId>) -> (r: Vec<NodeId>)
    ensures
        r@ == v@,
{
    let mut r: Vec<NodeId> = Vec::new();
    let mut i: usize = 0;
    while i < v.len()
        invariant
            0 <= i <= v@.len(),
            r@ =~= v@.take(i as int),
        decreases v@.len() - i,
    {
        r.push(v[i]);
        proof {
            assert(r@ =~= v@.take(i as int + 1));
        }
        i = i + 1;
    }
    proof {
        assert(v@.take(v@.len() as int) =~= v@);
    }
    r
}

/// The values of `a` that are not in `b`, deduplicated.
fn set_difference(a: &Vec<u64>, b: &Vec<u64>) -> (r: Vec<u64>)
    ensures
        no_dups(r@),
        forall|k: u64| r@.contains(k) <==> a@.contains(k) && !b@.contains(k),
{
    let mut r: Vec<u64> = Vec::new();
    let mut i: usize = 0;
    while i < a.len()
        invariant
            0 <= i <= a@.len(),
            no_dups(r@),
            forall|k: u64|
                r@.contains(k) <==> a@.take(i as int).contains(k) && !b@.contains(k),
        decreases a@.len() - i,
    {
        let x = a[i];
        proof {
            assert(a@.take(i as int + 1) =~= a@.take(i as int).push(a@[i as int]));
        }
        if !contains_value(b, x) && !contains_value(&r, x) {
            let ghost r0 = r@;
            r.push(x);
            proof {
                assert forall|a1: int, b1: int|
                    0 <= a1 < b1 < r@.len() implies r@[a1] != r@[b1] by {
                    if b1 < r0.len() {
                    } else {
                        assert(r@[b1] == x);
                        assert(r0[a1] == r@[a1]);
                        if r@[a1] == x {
                            assert(r0.contains(x));
                        }
                    }
                }
            }
        }
        i = i + 1;
    }
    proof {
        assert(a@.take(a@.len() as int) =~= a@);
    }
    r
}

/// The set union of two duplicate-free vectors.
fn union_values(a: &Vec<u64>, b: &Vec<u64>) -> (r: Vec<u64>)
    requires
        no_dups(a@),
    ensures
        no_dups(r@),
        forall|k: u64| r@.contains(k) <==> a@.contains(k) || b@.contains(k),
{
    let mut r = copy_values(a);
    let mut i: usize = 0;
    while i < b.len()
        invariant
            0 <= i <= b@.len(),
            no_dups(r@),
            forall|k: u64| r@.contains(k) <==> a@.contains(k) || b@.take(i as int).contains(k),
        decreases b@.len() - i,
    {
        proof {
            assert(b@.take(i as int + 1) =~= b@.take(i as int).push(b@[i as int]));
        }
        insert_value(&mut r, b[i]);
        i = i + 1;
    }
    proof {
        assert(b@.take(b@.len() as int) =~= b@);
    }
    r
}

/// One broadcast event only ever adds to the observed set.
pub open spec fn seen_grows(pre: BroadcastHandler, post: BroadcastHandler) -> bool {
    forall|v: u64| pre.seen@.contains(v) ==> post.seen@.contains(v)
}

/// The node core after a handler step that emitted `count` messages: well
/// formed, identity, peers and correlation table untouched, and exactly one
/// message id consumed per emitted message.
pub open spec fn node_stepped(pre: Node, post: Node, count: int) -> bool {
    &&& post.wf()
    &&& post.id == pre.id
    &&& post.peers == pre.peers
    &&& post.pending == pre.pending
    &&& post.next_msg_id == pre.next_msg_id + count
}

/// A reply envelope: from this node, back to the request's sender,
/// correlated on the request's `msg_id`.
pub open spec fn replies_to(
    m: MaelstromMessage<BroadcastPayload>,
    node: Node,
    req: MaelstromMessage<BroadcastPayload>,
) -> bool {
    &&& m.src == node.spec_self_id()
    &&& m.dest == req.src
    &&& m.body.in_reply_to == req.body.msg_id
}

/// How many of the first `i` neighbors are not `sender`; the fan-out of a
/// gossip receipt emits one message per such neighbor, in neighbor order.
pub open spec fn non_sender_before(ns: Seq<NodeId>, sender: NodeId, i: int) -> int
    decreases i,
{
    if i <= 0 {
        0
    } else {
        non_sender_before(ns, sender, i - 1) + (if ns[i - 1] != sender {
            1int
        } else {
            0int
        })
    }
}

/// How many of the first `i` unacked sets are non-empty; the retransmission
/// pass emits one message per such neighbor, in neighbor order.
pub open spec fn nonempty_unacked_before(h: BroadcastHandler, i: int) -> int
    decreases i,
{
    if i <= 0 {
        0
    } else {
        nonempty_unacked_before(h, i - 1) + (if h.unacked@[i - 1]@.len() > 0 {
            1int
        } else {
            0int
        })
    }
}

proof fn lemma_non_sender_before_bounds(ns: Seq<NodeId>, sender: NodeId, i: int)
    requires
        0 <= i,
    ensures
        0 <= non_sender_before(ns, sender, i) <= i,
    decreases i,
{
    if i > 0 {
        lemma_non_sender_before_bounds(ns, sender, i - 1);
    }
}

proof fn lemma_non_sender_before_mono(ns: Seq<NodeId>, sender: NodeId, i: int, j: int)
    requires
        0 <= i <= j,
    ensures
        non_sender_before(ns, sender, i) <= non_sender_before(ns, sender, j),
    decreases j - i,
{
    if i < j {
        lemma_non_sender_before_mono(ns, sender, i, j - 1);
    }
}

proof fn lemma_nonempty_unacked_before_mono(h: BroadcastHandler, i: int, j: int)
    requires
        0 <= i <= j,
    ensures
        nonempty_unacked_before(h, i) <= nonempty_unacked_before(h, j),
    decreases j - i,
{
    if i < j {
        lemma_nonempty_unacked_before_mono(h, i, j - 1);
    }
}

/// What the retransmission pass emits: nothing without a topology;
/// otherwise exactly one gossip per neighbor with a non-empty unacked set,
/// in neighbor order, carrying exactly that set, and no other message.
pub open spec fn resend_post(
    h: BroadcastHandler,
    pre_node: Node,
    out: Seq<MaelstromMessage<BroadcastPayload>>,
) -> bool {
    match h.neighbors {
        None => out.len() == 0,
        Some(ns) => {
            &&& out.len() == nonempty_unacked_before(h, ns@.len() as int)
            &&& forall|j: int|
                0 <= j < out.len() ==> {
                    &&& (#[trigger] out[j]).src == pre_node.spec_self_id()
                    &&& out[j].body.in_reply_to is None
                    &&& (out[j].body.payload matches BroadcastPayload::Gossip { messages: g }
                        && g@.len() > 0)
                    &&& ns@.contains(out[j].dest)
                }
            &&& forall|i: int|
                0 <= i < ns@.len() && (#[trigger] h.unacked@[i]@).len() > 0 ==> {
                    let j = nonempty_unacked_before(h, i);
                    &&& 0 <= j < out.len()
                    &&& out[j].dest == ns@[i]
                    &&& (out[j].body.payload matches BroadcastPayload::Gossip { messages: g }
                        && g@ == h.unacked@[i]@)
                }
        },
    }
}

/// The effect of receiving `gossip {messages}` from `msg.src`: the set is
/// acknowledged verbatim and merged into `seen`; when it brought genuinely
/// new values and a topology is installed, every neighbor except the sender
/// has its unacked set extended by the new values and receives exactly one
/// gossip carrying exactly that extended set, in neighbor order — and
/// nothing else is emitted.
pub open spec fn gossip_post(
    pre: BroadcastHandler,
    post: BroadcastHandler,
    pre_node: Node,
    msg: MaelstromMessage<BroadcastPayload>,
    messages: Seq<u64>,
    out: Seq<MaelstromMessage<BroadcastPayload>>,
) -> bool {
    &&& seen_grows(pre, post)
    &&& (forall|v: u64| post.seen@.contains(v) <==> pre.seen@.contains(v) || messages.contains(v))
    &&& post.neighbors == pre.neighbors
    &&& post.unacked@.len() == pre.unacked@.len()
    &&& out.len() >= 1
    &&& replies_to(out[0], pre_node, msg)
    &&& (out[0].body.payload matches BroadcastPayload::GossipAck { messages: a } && a@ == messages)
    &&& (forall|j: int|
        1 <= j < out.len() ==> {
            &&& (#[trigger] out[j]).dest != msg.src
            &&& out[j].src == pre_node.spec_self_id()
            &&& out[j].body.in_reply_to is None
            &&& out[j].body.payload is Gossip
            &&& (match pre.neighbors {
                Some(ns) => ns@.contains(out[j].dest),
                None => false,
            })
        })
    &&& ({
        let fresh = exists|v: u64| #[trigger] messages.contains(v) && !pre.seen@.contains(v);
        &&& (!fresh ==> post.unacked == pre.unacked && out.len() == 1)
        &&& (pre.neighbors is None ==> post.unacked == pre.unacked && out.len() == 1)
        &&& (fresh ==> (match pre.neighbors {
            Some(ns) => {
                &&& out.len() == 1 + non_sender_before(ns@, msg.src, ns@.len() as int)
                &&& (forall|i: int|
                    0 <= i < ns@.len() ==> {
                        &&& ((#[trigger] ns@[i]) == msg.src ==> post.unacked@[i]@
                            == pre.unacked@[i]@)
                        &&& (ns@[i] != msg.src ==> (forall|k: u64|
                            #[trigger] post.unacked@[i]@.contains(k) <==> pre.unacked@[i]@.contains(
                                k,
                            ) || (messages.contains(k) && !pre.seen@.contains(k))))
                        &&& (ns@[i] != msg.src ==> {
                            let j = 1 + non_sender_before(ns@, msg.src, i);
                            &&& 1 <= j < out.len()
                            &&& out[j].dest == ns@[i]
                            &&& (out[j].body.payload matches BroadcastPayload::Gossip {
                                messages: g,
                            } && (forall|k: u64|
                                g@.contains(k) <==> post.unacked@[i]@.contains(k)))
                        })
                    })
            },
            None => true,
        }))
    })
}

/// The effect of `broadcast {message}`: the value is stored and
/// acknowledged; with a topology installed, every neighbor's unacked set is
/// extended by the value and receives exactly one gossip carrying exactly
/// that extended set, in neighbor order; without one, nothing is gossiped.
pub open spec fn broadcast_post(
    pre: BroadcastHandler,
    post: BroadcastHandler,
    pre_node: Node,
    msg: MaelstromMessage<BroadcastPayload>,
    message: u64,
    out: Seq<MaelstromMessage<BroadcastPayload>>,
) -> bool {
    &&& seen_grows(pre, post)
    &&& (forall|v: u64| post.seen@.contains(v) <==> pre.seen@.contains(v) || v == message)
    &&& post.neighbors == pre.neighbors
    &&& post.unacked@.len() == pre.unacked@.len()
    &&& out.len() == 1 + pre.neighbor_len()
    &&& replies_to(out[0], pre_node, msg)
    &&& out[0].body.payload is BroadcastOk
    &&& (pre.neighbors is None ==> post.unacked == pre.unacked)
    &&& (match pre.neighbors {
        Some(ns) => forall|i: int|
            0 <= i < ns@.len() ==> {
                &&& (#[trigger] out[i + 1]).dest == ns@[i]
                &&& out[i + 1].src == pre_node.spec_self_id()
                &&& out[i + 1].body.in_reply_to is None
                &&& (out[i + 1].body.payload matches BroadcastPayload::Gossip { messages: g } && (
                forall|k: u64| g@.contains(k) <==> pre.unacked@[i]@.contains(k) || k == message))
                &&& (forall|k: u64|
                    #[trigger] post.unacked@[i]@.contains(k) <==> pre.unacked@[i]@.contains(k) || k
                        == message)
            },
        None => true,
    })
}

/// The effect of `read`: exactly one reply, carrying the observed set.
pub open spec fn read_post(
    h: BroadcastHandler,
    pre_node: Node,
    msg: MaelstromMessage<BroadcastPayload>,
    out: Seq<MaelstromMessage<BroadcastPayload>>,
) -> bool {
    &&& out.len() == 1
    &&& replies_to(out[0], pre_node, msg)
    &&& (out[0].body.payload matches BroadcastPayload::ReadOk { messages } && messages@ == h.seen@)
}

/// The effect of a first, well-formed `topology`: our first entry's
/// neighbor list is installed with empty unacked sets, and exactly one
/// `topology_ok` reply is emitted.
pub open spec fn topology_ok_post(
    pre: BroadcastHandler,
    post: BroadcastHandler,
    pre_node: Node,
    msg: MaelstromMessage<BroadcastPayload>,
    topology: Seq<(NodeId, Vec<NodeId>)>,
    out: Seq<MaelstromMessage<BroadcastPayload>>,
) -> bool {
    &&& post.seen == pre.seen
    &&& exists|k: int|
        0 <= k < topology.len() && (#[trigger] topology[k]).0 == pre_node.spec_self_id() && (forall|
            j: int,
        |
            0 <= j < k ==> (#[trigger] topology[j]).0 != pre_node.spec_self_id()) && (post.neighbors
            matches Some(ns) && ns@ == topology[k].1@)
    &&& post.unacked@.len() == post.neighbor_len()
    &&& (forall|i: int| 0 <= i < post.unacked@.len() ==> (#[trigger] post.unacked@[i]@).len() == 0)
    &&& out.len() == 1
    &&& replies_to(out[0], pre_node, msg)
    &&& out[0].body.payload is TopologyOk
}

/// The effect of `gossip_ack {messages}` from a peer: the acknowledged
/// values leave that peer's unacked set; nothing else changes.
pub open spec fn gossip_ack_post(
    pre: BroadcastHandler,
    post: BroadcastHandler,
    msg: MaelstromMessage<BroadcastPayload>,
    messages: Seq<u64>,
) -> bool {
    &&& post.seen == pre.seen
    &&& post.neighbors == pre.neighbors
    &&& post.unacked@.len() == pre.unacked@.len()
    &&& (match pre.neighbors {
        None => post.unacked == pre.unacked,
        Some(ns) => forall|i: int|
            0 <= i < ns@.len() ==> {
                &&& ((#[trigger] ns@[i]) == msg.src ==> (forall|k: u64|
                    #[trigger] post.unacked@[i]@.contains(k) <==> pre.unacked@[i]@.contains(k)
                        && !messages.contains(k)))
                &&& (ns@[i] != msg.src ==> post.unacked@[i]@ == pre.unacked@[i]@)
            },
    })
}

/// The broadcast workload state of one node.
pub struct BroadcastHandler {
    /// Values observed so far, duplicate-free.
    pub seen: Vec<u64>,
    /// Direct neighbors, installed exactly once by the first `topology`.
    pub neighbors: Option<Vec<NodeId>>,
    /// For each neighbor (same index), the values sent to it and not yet
    /// acknowledged.
    pub unacked: Vec<Vec<u64>>,
}

impl BroadcastHandler {
    pub open spec fn wf(&self) -> bool {
        &&& no_dups(self.seen@)
        &&& match self.neighbors {
            Some(ns) => self.unacked@.len() == ns@.len(),
            None => self.unacked@.len() == 0,
        }
        &&& forall|i: int| 0 <= i < self.unacked@.len() ==> no_dups(#[trigger] self.unacked@[i]@)
        &&& forall|i: int, k: u64|
            0 <= i < self.unacked@.len() && #[trigger] self.unacked@[i]@.contains(k)
                ==> self.seen@.contains(k)
    }

    /// How many neighbors are installed.
    pub open spec fn neighbor_len(&self) -> int {
        match self.neighbors {
            Some(ns) => ns@.len() as int,
            None => 0,
        }
    }

    pub fn new() -> (h: BroadcastHandler)
        ensures
            h.wf(),
            h.seen@.len() == 0,
            h.neighbors is None,
            h.unacked@.len() == 0,
    {
        BroadcastHandler { seen: Vec::new(), neighbors: None, unacked: Vec::new() }
    }

    /// Handles `broadcast {message}`: stores the value, acknowledges with
    /// `broadcast_ok`, and gossips the value to every neighbor, extending
    /// that neighbor's unacked set. Before a topology is installed there are
    /// no neighbors, so the value is stored and acknowledged but no gossip
    /// is attempted.
    pub fn on_broadcast(
        &mut self,
        node: &mut Node,
        msg: &MaelstromMessage<BroadcastPayload>,
        message: u64,
    ) -> (out: Vec<MaelstromMessage<BroadcastPayload>>)
        requires
            old(self).wf(),
            old(node).wf(),
            old(node).next_msg_id + 1 + old(self).neighbor_len() <= u64::MAX,
        ensures
            final(self).wf(),
            node_stepped(*old(node), *final(node), out@.len() as int),
            broadcast_post(*old(self), *final(self), *old(node), *msg, message, out@),
    {
        insert_value(&mut self.seen, message);
        let mut out: Vec<MaelstromMessage<BroadcastPayload>> = Vec::new();
        out.push(node.reply(msg, BroadcastPayload::BroadcastOk));
        let ghost reply0 = out@[0];
        if self.neighbors.is_some() {
            let ghost pre = *self;
            let ns = copy_ids(self.neighbors.as_ref().unwrap());
            let mut new_unacked: Vec<Vec<u64>> = Vec::new();
            let ghost node1 = *node;
            let mut i: usize = 0;
            while i < ns.len()
                invariant
                    0 <= i <= ns@.len(),
                    *self == pre,
                    pre.wf(),
                    pre.neighbors matches Some(pns) && pns@ == ns@,
                    pre.seen@.contains(message),
                    node.wf(),
                    node.id == node1.id,
                    node.peers == node1.peers,
                    node.pending == node1.pending,
                    node.next_msg_id == node1.next_msg_id + i,
                    node1.next_msg_id + ns@.len() <= u64::MAX,
                    out@.len() == 1 + i,
                    out@[0] == reply0,
                    new_unacked@.len() == i,
                    forall|j: int| 0 <= j < i ==> no_dups(#[trigger] new_unacked@[j]@),
                    forall|j: int, k: u64|
                        0 <= j < i ==> (#[trigger] new_unacked@[j]@.contains(k)
                            <==> pre.unacked@[j]@.contains(k) || k == message),
                    forall|j: int|
                        0 <= j < i ==> {
                            &&& (#[trigger] out@[j + 1]).dest == ns@[j]
                            &&& out@[j + 1].src == node1.spec_self_id()
                            &&& out@[j + 1].body.in_reply_to is None
                            &&& (out@[j + 1].body.payload matches BroadcastPayload::Gossip {
                                messages: g,
                            } && (forall|k: u64|
                                g@.contains(k) <==> pre.unacked@[j]@.contains(k) || k == message))
                        },
                decreases ns@.len() - i,
            {
                let mut u = copy_values(&self.unacked[i]);
                insert_value(&mut u, message);
                let g = copy_values(&u);
                new_unacked.push(u);
                out.push(node.send(ns[i], BroadcastPayload::Gossip { messages: g }));
                i = i + 1;
            }
            self.unacked = new_unacked;
        }
        out
    }

    /// Handles `read`: replies with a snapshot of the observed values.
    pub fn on_read(&self, node: &mut Node, msg: &MaelstromMessage<BroadcastPayload>) -> (out: Vec<
        MaelstromMessage<BroadcastPayload>,
    >)
        requires
            self.wf(),
            old(node).wf(),
            old(node).next_msg_id < u64::MAX,
        ensures
            node_stepped(*old(node), *final(node), out@.len() as int),
            read_post(*self, *old(node), *msg, out@),
    {
        let snapshot = copy_values(&self.seen);
        let mut out: Vec<MaelstromMessage<BroadcastPayload>> = Vec::new();
        out.push(node.reply(msg, BroadcastPayload::ReadOk { messages: snapshot }));
        out
    }

    /// Handles `topology`: installs our own entry as the neighbor list,
    /// exactly once. A second `topology` fails with `precondition_failed`; a
    /// topology without our entry fails with `node_not_found`. Nothing else
    /// changes on failure.
    pub fn on_topology(
        &mut self,
        node: &mut Node,
        msg: &MaelstromMessage<BroadcastPayload>,
        topology: &Vec<(NodeId, Vec<NodeId>)>,
    ) -> (r: Result<Vec<MaelstromMessage<BroadcastPayload>>, MaelstromError>)
        requires
            old(self).wf(),
            old(node).wf(),
            old(node).next_msg_id < u64::MAX,
        ensures
            final(self).wf(),
            r is Ok <==> old(self).neighbors is None && (exists|k: int|
                0 <= k < topology@.len() && (#[trigger] topology@[k]).0 == old(
                    node,
                ).spec_self_id()),
            old(self).neighbors is Some ==> (r matches Err(e) && e.code
                == crate::error::PRECONDITION_FAILED),
            old(self).neighbors is None && r is Err ==> (r matches Err(e) && e.code
                == crate::error::NODE_NOT_FOUND),
            r is Err ==> *final(self) == *old(self) && *final(node) == *old(node),
            r matches Ok(out) ==> node_stepped(*old(node), *final(node), out@.len() as int)
                && topology_ok_post(*old(self), *final(self), *old(node), *msg, topology@, out@),
    {
        if self.neighbors.is_some() {
            return Err(MaelstromError::precondition_failed("topology already installed"));
        }
        let me = node.self_id();
        let n = topology.len();
        let mut k: usize = 0;
        while k < n
            invariant
                0 <= k <= n == topology@.len(),
                *self == *old(self),
                *node == *old(node),
                old(self).wf(),
                old(node).wf(),
                old(node).next_msg_id < u64::MAX,
                self.neighbors is None,
                me == old(node).spec_self_id(),
                forall|j: int| 0 <= j < k ==> (#[trigger] topology@[j]).0 != me,
            decreases n - k,
        {
            if topology[k].0 == me {
                let ns = copy_ids(&topology[k].1);
                let mut unacked: Vec<Vec<u64>> = Vec::new();
                let mut i: usize = 0;
                let len = ns.len();
                while i < len
                    invariant
                        0 <= i <= len,
                        *self == *old(self),
                        *node == *old(node),
                        unacked@.len() == i,
                        forall|j: int| 0 <= j < i ==> (#[trigger] unacked@[j]@).len() == 0,
                    decreases len - i,
                {
                    unacked.push(Vec::new());
                    i = i + 1;
                }
                self.neighbors = Some(ns);
                self.unacked = unacked;
                let mut out: Vec<MaelstromMessage<BroadcastPayload>> = Vec::new();
                out.push(node.reply(msg, BroadcastPayload::TopologyOk));
                return Ok(out);
            }
            k = k + 1;
        }
        Err(MaelstromError::node_not_found("own node id missing from topology"))
    }

    /// Handles `gossip {messages}` from a peer: acknowledges the received
    /// set verbatim, merges it into the observed set, and forwards the
    /// genuinely new values to every neighbor except the sender — the
    /// gossip this node emits in response never targets the peer the values
    /// just came from, and each recipient gets exactly its extended unacked
    /// set.
    #[verifier::rlimit(60)]
    pub fn on_gossip(
        &mut self,
        node: &mut Node,
        msg: &MaelstromMessage<BroadcastPayload>,
        messages: &Vec<u64>,
    ) -> (out: Vec<MaelstromMessage<BroadcastPayload>>)
        requires
            old(self).wf(),
            old(node).wf(),
            old(node).next_msg_id + 1 + old(self).neighbor_len() <= u64::MAX,
        ensures
            final(self).wf(),
            node_stepped(*old(node), *final(node), out@.len() as int),
            gossip_post(*old(self), *final(self), *old(node), *msg, messages@, out@),
    {
        let mut out: Vec<MaelstromMessage<BroadcastPayload>> = Vec::new();
        out.push(node.reply(msg, BroadcastPayload::GossipAck { messages: copy_values(messages) }));
        let ghost reply0 = out@[0];
        let fresh = set_difference(messages, &self.seen);
        let ghost seen0 = self.seen@;
        let mut i: usize = 0;
        while i < fresh.len()
            invariant
                0 <= i <= fresh@.len(),
                no_dups(self.seen@),
                self.neighbors == old(self).neighbors,
                self.unacked == old(self).unacked,
                forall|k: u64| fresh@.contains(k) <==> messages@.contains(k) && !seen0.contains(k),
                forall|v: u64|
                    #[trigger] self.seen@.contains(v) <==> seen0.contains(v) || (exists|w: int|
                        0 <= w < i && fresh@[w] == v),
            decreases fresh@.len() - i,
        {
            let ghost seen_pre = self.seen@;
            insert_value(&mut self.seen, fresh[i]);
            proof {
                assert forall|v: u64|
                    #[trigger] self.seen@.contains(v) <==> seen0.contains(v) || (exists|w: int|
                        0 <= w < i + 1 && fresh@[w] == v) by {
                    assert(self.seen@.contains(v) <==> seen_pre.contains(v) || v == fresh@[
                        i as int
                    ]);
                    assert(seen_pre.contains(v) <==> seen0.contains(v) || (exists|w: int|
                        0 <= w < i && fresh@[w] == v));
                    if v == fresh@[i as int] {
                        assert(0 <= i < i + 1 && fresh@[i as int] == v);
                    }
                }
            }
            i = i + 1;
        }
        proof {
            assert forall|v: u64|
                self.seen@.contains(v) <==> old(self).seen@.contains(v) || messages@.contains(
                    v,
                ) by {
                assert(self.seen@.contains(v) <==> seen0.contains(v) || (exists|w: int|
                    0 <= w < fresh@.len() && fresh@[w] == v));
                assert((exists|w: int| 0 <= w < fresh@.len() && fresh@[w] == v) <==> fresh@.contains(
                    v,
                ));
                assert(fresh@.contains(v) <==> messages@.contains(v) && !seen0.contains(v));
            }
        }
        if fresh.len() > 0 && self.neighbors.is_some() {
            let ghost pre = *self;
            let ns = copy_ids(self.neighbors.as_ref().unwrap());
            let mut new_unacked: Vec<Vec<u64>> = Vec::new();
            let ghost node1 = *node;
            let sender = msg.src;
            let mut i: usize = 0;
            while i < ns.len()
                invariant
                    0 <= i <= ns@.len(),
                    *self == pre,
                    pre.neighbors matches Some(pns) && pns@ == ns@,
                    pre.unacked == old(self).unacked,
                    pre.unacked@.len() == ns@.len(),
                    forall|j: int| 0 <= j < pre.unacked@.len() ==> no_dups(
                        #[trigger] pre.unacked@[j]@,
                    ),
                    forall|j: int, k: u64|
                        0 <= j < pre.unacked@.len() && #[trigger] pre.unacked@[j]@.contains(k)
                            ==> pre.seen@.contains(k),
                    no_dups(fresh@),
                    forall|k: u64| #[trigger] fresh@.contains(k) ==> pre.seen@.contains(k),
                    sender == msg.src,
                    node.wf(),
                    node.id == node1.id,
                    node.peers == node1.peers,
                    node.pending == node1.pending,
                    node1.next_msg_id + ns@.len() <= u64::MAX,
                    node.next_msg_id == node1.next_msg_id + (out@.len() - 1),
                    node1.spec_self_id() == node.spec_self_id(),
                    out@.len() == 1 + non_sender_before(ns@, sender, i as int),
                    out@.len() <= 1 + i,
                    out@[0] == reply0,
                    new_unacked@.len() == i,
                    forall|j: int| 0 <= j < i ==> no_dups(#[trigger] new_unacked@[j]@),
                    forall|j: int, k: u64|
                        0 <= j < i && #[trigger] new_unacked@[j]@.contains(k) ==> pre.seen@.contains(
                            k,
                        ),
                    forall|j: int|
                        0 <= j < i && (#[trigger] ns@[j]) == sender ==> new_unacked@[j]@
                            == pre.unacked@[j]@,
                    forall|j: int|
                        0 <= j < i && (#[trigger] ns@[j]) != sender ==> (forall|k: u64|
                            #[trigger] new_unacked@[j]@.contains(k) <==> pre.unacked@[j]@.contains(
                                k,
                            ) || fresh@.contains(k)),
                    forall|j: int|
                        1 <= j < out@.len() ==> {
                            &&& (#[trigger] out@[j]).dest != sender
                            &&& out@[j].src == node1.spec_self_id()
                            &&& out@[j].body.in_reply_to is None
                            &&& out@[j].body.payload is Gossip
                            &&& ns@.contains(out@[j].dest)
                        },
                    forall|j: int|
                        0 <= j < i && (#[trigger] ns@[j]) != sender ==> {
                            let w = 1 + non_sender_before(ns@, sender, j);
                            &&& 1 <= w < out@.len()
                            &&& out@[w].dest == ns@[j]
                            &&& (out@[w].body.payload matches BroadcastPayload::Gossip {
                                messages: g,
                            } && (forall|k: u64|
                                g@.contains(k) <==> new_unacked@[j]@.contains(k)))
                        },
                decreases ns@.len() - i,
            {
                let ghost out_pre = out@;
                let ghost nu_pre = new_unacked@;
                if ns[i] == sender {
                    new_unacked.push(copy_values(&self.unacked[i]));
                    proof {
                        assert(non_sender_before(ns@, sender, i as int + 1) == non_sender_before(
                            ns@,
                            sender,
                            i as int,
                        ));
                    }
                } else {
                    let u = union_values(&self.unacked[i], &fresh);
                    let ghost uview = u@;
                    let g = copy_values(&u);
                    new_unacked.push(u);
                    proof {
                        assert(ns@.contains(ns@[i as int])) by {
                            assert(ns@[i as int] == ns@[i as int]);
                        }
                    }
                    out.push(node.send(ns[i], BroadcastPayload::Gossip { messages: g }));
                    proof {
                        let w = out_pre.len() as int;
                        assert(non_sender_before(ns@, sender, i as int + 1) == non_sender_before(
                            ns@,
                            sender,
                            i as int,
                        ) + 1);
                        assert(out@[w].dest == ns@[i as int]);
                        assert(new_unacked@[i as int]@ == uview);
                        assert forall|j: int|
                            0 <= j < i + 1 && (#[trigger] ns@[j]) != sender implies {
                            let w2 = 1 + non_sender_before(ns@, sender, j);
                            &&& 1 <= w2 < out@.len()
                            &&& out@[w2].dest == ns@[j]
                            &&& (out@[w2].body.payload matches BroadcastPayload::Gossip {
                                messages: g2,
                            } && (forall|k: u64|
                                g2@.contains(k) <==> new_unacked@[j]@.contains(k)))
                        } by {
                            lemma_non_sender_before_bounds(ns@, sender, j);
                            if j < i {
                                lemma_non_sender_before_mono(ns@, sender, j + 1, i as int);
                                assert(non_sender_before(ns@, sender, j + 1) == non_sender_before(
                                    ns@,
                                    sender,
                                    j,
                                ) + 1);
                                let w2 = 1 + non_sender_before(ns@, sender, j);
                                assert(out@[w2] == out_pre[w2]);
                                assert(new_unacked@[j] == nu_pre[j]);
                            } else {
                                assert(new_unacked@[j]@ == uview);
                            }
                        }
                    }
                }
                i = i + 1;
            }
            self.unacked = new_unacked;
            proof {
                assert(fresh@.contains(fresh@[0]));
                lemma_non_sender_before_bounds(ns@, sender, ns@.len() as int);
            }
        }
        out
    }

    /// Handles `gossip_ack {messages}` from a peer: removes every
    /// acknowledged value from that peer's unacked set. Nothing else
    /// changes, and no message is emitted.
    pub fn on_gossip_ack(
        &mut self,
        msg: &MaelstromMessage<BroadcastPayload>,
        messages: &Vec<u64>,
    )
        requires
            old(self).wf(),
        ensures
            final(self).wf(),
            gossip_ack_post(*old(self), *final(self), *msg, messages@),
    {
        if self.neighbors.is_some() {
            let ghost pre = *self;
            let ns = copy_ids(self.neighbors.as_ref().unwrap());
            let sender = msg.src;
            let mut new_unacked: Vec<Vec<u64>> = Vec::new();
            let mut i: usize = 0;
            while i < ns.len()
                invariant
                    0 <= i <= ns@.len(),
                    *self == pre,
                    pre.wf(),
                    pre.neighbors matches Some(pns) && pns@ == ns@,
                    pre.unacked@.len() == ns@.len(),
                    sender == msg.src,
                    new_unacked@.len() == i,
                    forall|j: int| 0 <= j < i ==> no_dups(#[trigger] new_unacked@[j]@),
                    forall|j: int, k: u64|
                        0 <= j < i && #[trigger] new_unacked@[j]@.contains(k) ==> pre.seen@.contains(
                            k,
                        ),
                    forall|j: int|
                        0 <= j < i && (#[trigger] ns@[j]) == sender ==> (forall|k: u64|
                            #[trigger] new_unacked@[j]@.contains(k) <==> pre.unacked@[j]@.contains(
                                k,
                            ) && !messages@.contains(k)),
                    forall|j: int|
                        0 <= j < i && (#[trigger] ns@[j]) != sender ==> new_unacked@[j]@
                            == pre.unacked@[j]@,
                decreases ns@.len() - i,
            {
                if ns[i] == sender {
                    new_unacked.push(set_difference(&self.unacked[i], messages));
                } else {
                    new_unacked.push(copy_values(&self.unacked[i]));
                }
                i = i + 1;
            }
            self.unacked = new_unacked;
        }
    }

    /// The periodic retransmission pass: re-sends `gossip` to every
    /// neighbor whose unacked set is non-empty, carrying exactly that set,
    /// one message per such neighbor in neighbor order, and nothing else.
    /// Under fair-loss links this repeats until each value is acknowledged,
    /// which gives eventual delivery.
    pub fn gossip(&self, node: &mut Node) -> (out: Vec<MaelstromMessage<BroadcastPayload>>)
        requires
            self.wf(),
            old(node).wf(),
            old(node).next_msg_id + self.neighbor_len() <= u64::MAX,
        ensures
            node_stepped(*old(node), *final(node), out@.len() as int),
            resend_post(*self, *old(node), out@),
    {
        let mut out: Vec<MaelstromMessage<BroadcastPayload>> = Vec::new();
        if self.neighbors.is_some() {
            let ns = copy_ids(self.neighbors.as_ref().unwrap());
            let ghost node1 = *node;
            let mut i: usize = 0;
            while i < ns.len()
                invariant
                    0 <= i <= ns@.len(),
                    self.wf(),
                    self.neighbors matches Some(sns) && sns@ == ns@,
                    self.unacked@.len() == ns@.len(),
                    node.wf(),
                    node.id == node1.id,
                    node.peers == node1.peers,
                    node.pending == node1.pending,
                    node1.next_msg_id + ns@.len() <= u64::MAX,
                    node.next_msg_id == node1.next_msg_id + out@.len(),
                    node1.spec_self_id() == node.spec_self_id(),
                    out@.len() == nonempty_unacked_before(*self, i as int),
                    out@.len() <= i,
                    forall|j: int|
                        0 <= j < out@.len() ==> {
                            &&& (#[trigger] out@[j]).src == node1.spec_self_id()
                            &&& out@[j].body.in_reply_to is None
                            &&& (out@[j].body.payload matches BroadcastPayload::Gossip {
                                messages: g,
                            } && g@.len() > 0)
                            &&& ns@.contains(out@[j].dest)
                        },
                    forall|i2: int|
                        0 <= i2 < i && (#[trigger] self.unacked@[i2]@).len() > 0 ==> {
                            let w = nonempty_unacked_before(*self, i2);
                            &&& 0 <= w < out@.len()
                            &&& out@[w].dest == ns@[i2]
                            &&& (out@[w].body.payload matches BroadcastPayload::Gossip {
                                messages: g,
                            } && g@ == self.unacked@[i2]@)
                        },
                decreases ns@.len() - i,
            {
                let ghost out_pre = out@;
                if self.unacked[i].len() > 0 {
                    let g = copy_values(&self.unacked[i]);
                    proof {
                        assert(ns@.contains(ns@[i as int])) by {
                            assert(ns@[i as int] == ns@[i as int]);
                        }
                    }
                    out.push(node.send(ns[i], BroadcastPayload::Gossip { messages: g }));
                    proof {
                        let j = out_pre.len() as int;
                        assert(nonempty_unacked_before(*self, i as int + 1)
                            == nonempty_unacked_before(*self, i as int) + 1);
                        assert(out@[j].dest == ns@[i as int]);
                        assert forall|i2: int|
                            0 <= i2 < i + 1 && (#[trigger] self.unacked@[i2]@).len() > 0 implies {
                            let w = nonempty_unacked_before(*self, i2);
                            &&& 0 <= w < out@.len()
                            &&& out@[w].dest == ns@[i2]
                            &&& (out@[w].body.payload matches BroadcastPayload::Gossip {
                                messages: g2,
                            } && g2@ == self.unacked@[i2]@)
                        } by {
                            if i2 < i {
                                lemma_nonempty_unacked_before_mono(*self, i2 + 1, i as int);
                                assert(nonempty_unacked_before(*self, i2 + 1)
                                    == nonempty_unacked_before(*self, i2) + 1);
                                let w = nonempty_unacked_before(*self, i2);
                                assert(out@[w] == out_pre[w]);
                            }
                        }
                    }
                } else {
                    proof {
                        assert(nonempty_unacked_before(*self, i as int + 1)
                            == nonempty_unacked_before(*self, i as int));
                    }
                }
                i = i + 1;
            }
        }
        out
    }
}

impl Handler<BroadcastPayload, BroadcastPayload> for BroadcastHandler {
    open spec fn inv(&self) -> bool {
        self.wf()
    }

    /// Dispatch: decides every request of the workload. It fails with
    /// `temporarily_unavailable` when the message-id counter lacks headroom
    /// for the worst-case fan-out, and otherwise the per-event contracts
    /// apply; every error leaves the handler and the node untouched, and no
    /// event ever shrinks the observed set.
    fn handle(&mut self, node: &mut Node, msg: &MaelstromMessage<BroadcastPayload>) -> (r: Result<
        Vec<MaelstromMessage<BroadcastPayload>>,
        MaelstromError,
    >)
        ensures
            seen_grows(*old(self), *final(self)),
            r is Err ==> *final(self) == *old(self) && *final(node) == *old(node),
            r matches Err(e) ==> (e.code == crate::error::TEMPORARILY_UNAVAILABLE || e.code
                == crate::error::PRECONDITION_FAILED || e.code == crate::error::NODE_NOT_FOUND
                || e.code == crate::error::NOT_SUPPORTED),
            old(node).next_msg_id + 1 + old(self).neighbor_len() > u64::MAX ==> (r matches Err(e)
                && e.code == crate::error::TEMPORARILY_UNAVAILABLE),
            old(node).next_msg_id + 1 + old(self).neighbor_len() <= u64::MAX ==> (match msg.body.payload {
                BroadcastPayload::Broadcast { message } => r matches Ok(out) && node_stepped(
                    *old(node),
                    *final(node),
                    out@.len() as int,
                ) && broadcast_post(*old(self), *final(self), *old(node), *msg, message, out@),
                BroadcastPayload::Read => r matches Ok(out) && *final(self) == *old(self)
                    && node_stepped(*old(node), *final(node), out@.len() as int) && read_post(
                    *old(self),
                    *old(node),
                    *msg,
                    out@,
                ),
                BroadcastPayload::Topology { topology } => {
                    &&& (r is Ok <==> old(self).neighbors is None && (exists|k: int|
                        0 <= k < topology@.len() && (#[trigger] topology@[k]).0 == old(
                            node,
                        ).spec_self_id()))
                    &&& (r matches Ok(out) ==> node_stepped(
                        *old(node),
                        *final(node),
                        out@.len() as int,
                    ) && topology_ok_post(
                        *old(self),
                        *final(self),
                        *old(node),
                        *msg,
                        topology@,
                        out@,
                    ))
                },
                BroadcastPayload::Gossip { messages } => r matches Ok(out) && node_stepped(
                    *old(node),
                    *final(node),
                    out@.len() as int,
                ) && gossip_post(*old(self), *final(self), *old(node), *msg, messages@, out@),
                BroadcastPayload::GossipAck { messages } => r matches Ok(out) && out@.len() == 0
                    && *final(node) == *old(node) && gossip_ack_post(
                    *old(self),
                    *final(self),
                    *msg,
                    messages@,
                ),
                _ => r matches Err(e) && e.code == crate::error::NOT_SUPPORTED,
            }),
    {
        let nlen: usize = match &self.neighbors {
            Some(ns) => ns.len(),
            None => 0,
        };
        if nlen as u64 > u64::MAX - 1 {
            return Err(MaelstromError::temporarily_unavailable("message ids exhausted"));
        }
        if node.next_msg_id > u64::MAX - 1 - (nlen as u64) {
            return Err(MaelstromError::temporarily_unavailable("message ids exhausted"));
        }
        match &msg.body.payload {
            BroadcastPayload::Broadcast { message } => Ok(self.on_broadcast(node, msg, *message)),
            BroadcastPayload::Read => Ok(self.on_read(node, msg)),
            BroadcastPayload::Topology { topology } => self.on_topology(node, msg, topology),
            BroadcastPayload::Gossip { messages } => Ok(self.on_gossip(node, msg, messages)),
            BroadcastPayload::GossipAck { messages } => {
                self.on_gossip_ack(msg, messages);
                Ok(Vec::new())
            },
            BroadcastPayload::BroadcastOk | BroadcastPayload::ReadOk { .. }
                | BroadcastPayload::TopologyOk => Err(
                MaelstromError::not_supported("unexpected response payload"),
            ),
        }
    }
}

/// Law: every broadcast event only grows the observed set, and `read`
/// returns exactly that set; so over any run of events on one node, the
/// sets successive reads return are non-decreasing under set inclusion.
pub proof fn lemma_read_monotonic(states: Seq<BroadcastHandler>, i: int, j: int)
    requires
        forall|k: int|
            0 <= k < states.len() - 1 ==> #[trigger] seen_grows(states[k], states[k + 1]),
        0 <= i <= j < states.len(),
    ensures
        forall|v: u64| states[i].seen@.contains(v) ==> states[j].seen@.contains(v),
    decreases j - i,
{
    if i < j {
        lemma_read_monotonic(states, i, j - 1);
        let k = j - 1;
        assert(seen_grows(states[k], states[k + 1]));
    }
}

} // verus!
