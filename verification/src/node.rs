//! The node core: identity, the monotonic message-id counter, the RPC
//! correlation table, and the envelope-building operations `reply`, `send`
//! and `send_rpc`. The runtime driver performs the actual transport I/O and
//! feeds inbound events back through `take_correlation` and `complete_rpc`.

use vstd::prelude::*;

use crate::decimal::{all_digits, dec_value, parse_u32, spec_udec, u64_to_dec};
use crate::error::MaelstromError;
use crate::message::{Body, MaelstromMessage, NodeId, NodeKind};

verus! {

/// Formats a node-kind identifier, `n<id>`.
pub fn node_id(id: u32) -> (s: String)
    ensures
        s@ == seq!['n'] + spec_udec(id as nat),
{
    let s = String::from_str("n").concat(u64_to_dec(id as u64).as_str());
    proof {
        reveal_strlit("n");
        assert(s@ =~= seq!['n'] + spec_udec(id as nat));
    }
    s
}

/// Parses a node-kind identifier: `n` followed by an unsigned 32-bit
/// decimal. Anything else is a malformed request.
pub fn parse_node_id(id: &str) -> (r: Result<u32, MaelstromError>)
    ensures
        r is Ok <==> id@.len() >= 2 && id@[0] == 'n' && all_digits(id@.skip(1)) && dec_value(
            id@.skip(1),
        ) <= u32::MAX,
        r matches Ok(v) ==> v == dec_value(id@.skip(1)),
        r matches Err(e) ==> e.code == crate::error::MALFORMED_REQUEST,
{
    let len = id.unicode_len();
    if len < 2 {
        return Err(MaelstromError::malformed_request("invalid node id"));
    }
    if id.get_char(0) != 'n' {
        return Err(MaelstromError::malformed_request("invalid node id"));
    }
    let digits = id.substring_char(1, len);
    proof {
        assert(digits@ =~= id@.skip(1));
    }
    match parse_u32(digits) {
        Some(v) => Ok(v),
        None => Err(MaelstromError::malformed_request("invalid node id")),
    }
}

/// The bootstrap payload: `{type: "init", node_id, node_ids}`.
#[derive(Clone, Debug)]
pub struct Init {
    pub node_id: String,
    pub node_ids: Vec<String>,
}

/// The acknowledgment payload for `init`.
#[derive(Clone, Copy, Debug, PartialEq, Eq, Structural)]
pub struct InitOk {}

/// The per-process node state. The driver owns the transport; this value
/// owns everything the protocol decides on: identity, the peer list, the
/// monotonic message-id counter, and the set of message ids whose replies
/// are still awaited.
pub struct Node {
    /// Our own node number (the `<id>` of `n<id>`).
    pub id: u32,
    /// All participating nodes, as announced by `init`; includes self.
    pub peers: Vec<NodeId>,
    /// The next message id to allocate; ids are unique for the life of the
    /// process and strictly increasing.
    pub next_msg_id: u64,
    /// Message ids of outstanding RPCs, each awaiting one reply.
    pub pending: Vec<u64>,
    /// All message ids allocated so far, in order of emission.
    pub emitted: Ghost<Seq<u64>>,
}

impl Node {
    /// Well-formedness: emitted ids are strictly increasing and below the
    /// counter; pending correlation keys are distinct and below the counter.
    pub open spec fn wf(&self) -> bool {
        &&& forall|i: int, j: int|
            0 <= i < j < self.emitted@.len() ==> #[trigger] self.emitted@[i]
                < #[trigger] self.emitted@[j]
        &&& forall|i: int|
            0 <= i < self.emitted@.len() ==> #[trigger] self.emitted@[i] < self.next_msg_id
        &&& forall|i: int, j: int|
            0 <= i < j < self.pending@.len() ==> #[trigger] self.pending@[i]
                != #[trigger] self.pending@[j]
        &&& forall|i: int|
            0 <= i < self.pending@.len() ==> #[trigger] self.pending@[i] < self.next_msg_id
    }

    /// Our own address.
    pub open spec fn spec_self_id(&self) -> NodeId {
        NodeId { kind: NodeKind::Node, id: self.id }
    }

    pub fn self_id(&self) -> (n: NodeId)
        ensures
            n == self.spec_self_id(),
    {
        NodeId { kind: NodeKind::Node, id: self.id }
    }

    /// A fresh node: counter at zero, no correlation entries.
    pub fn new(id: u32, peers: Vec<NodeId>) -> (n: Node)
        ensures
            n.wf(),
            n.id == id,
            n.peers == peers,
            n.next_msg_id == 0,
            n.pending@.len() == 0,
            n.emitted@.len() == 0,
    {
        Node { id, peers, next_msg_id: 0, pending: Vec::new(), emitted: Ghost(Seq::empty()) }
    }

    /// Allocates the next message id.
    fn alloc_msg_id(&mut self) -> (id: u64)
        requires
            old(self).wf(),
            old(self).next_msg_id < u64::MAX,
        ensures
            final(self).wf(),
            id == old(self).next_msg_id,
            final(self).next_msg_id == id + 1,
            final(self).emitted@ == old(self).emitted@.push(id),
            final(self).pending == old(self).pending,
            final(self).id == old(self).id,
            final(self).peers == old(self).peers,
    {
        let id = self.next_msg_id;
        self.next_msg_id = self.next_msg_id + 1;
        proof {
            self.emitted@ = self.emitted@.push(id);
        }
        id
    }

    /// Builds the reply to `source_msg`: addressed to its sender, correlated
    /// by `in_reply_to = source_msg.body.msg_id`, carrying a fresh `msg_id`.
    pub fn reply<P, R>(&mut self, source_msg: &MaelstromMessage<P>, payload: R) -> (m:
        MaelstromMessage<R>)
        requires
            old(self).wf(),
            old(self).next_msg_id < u64::MAX,
        ensures
            final(self).wf(),
            m.src == old(self).spec_self_id(),
            m.dest == source_msg.src,
            m.body.in_reply_to == source_msg.body.msg_id,
            m.body.msg_id == Some(old(self).next_msg_id),
            m.body.payload == payload,
            final(self).next_msg_id == old(self).next_msg_id + 1,
            final(self).emitted@ == old(self).emitted@.push(old(self).next_msg_id),
            final(self).pending == old(self).pending,
            final(self).id == old(self).id,
            final(self).peers == old(self).peers,
    {
        let id = self.alloc_msg_id();
        MaelstromMessage {
            src: self.self_id(),
            dest: source_msg.src,
            body: Body { msg_id: Some(id), in_reply_to: source_msg.body.msg_id, payload },
        }
    }

    /// Builds a fire-and-forget message: fresh `msg_id`, no correlation
    /// entry, so no reply will ever be routed back for it.
    pub fn send<R>(&mut self, dest: NodeId, payload: R) -> (m: MaelstromMessage<R>)
        requires
            old(self).wf(),
            old(self).next_msg_id < u64::MAX,
        ensures
            final(self).wf(),
            m.src == old(self).spec_self_id(),
            m.dest == dest,
            m.body.in_reply_to is None,
            m.body.msg_id == Some(old(self).next_msg_id),
            m.body.payload == payload,
            final(self).next_msg_id == old(self).next_msg_id + 1,
            final(self).emitted@ == old(self).emitted@.push(old(self).next_msg_id),
            final(self).pending == old(self).pending,
            final(self).id == old(self).id,
            final(self).peers == old(self).peers,
    {
        let id = self.alloc_msg_id();
        MaelstromMessage {
            src: self.self_id(),
            dest,
            body: Body { msg_id: Some(id), in_reply_to: None, payload },
        }
    }

    /// Builds an RPC request: fresh `msg_id`, and exactly one new entry in
    /// the correlation table under that id. The id was never pending before.
    pub fn send_rpc<R>(&mut self, dest: NodeId, payload: R) -> (m: MaelstromMessage<R>)
        requires
            old(self).wf(),
            old(self).next_msg_id < u64::MAX,
        ensures
            final(self).wf(),
            m.src == old(self).spec_self_id(),
            m.dest == dest,
            m.body.in_reply_to is None,
            m.body.msg_id == Some(old(self).next_msg_id),
            m.body.payload == payload,
            !old(self).pending@.contains(old(self).next_msg_id),
            final(self).pending@ == old(self).pending@.push(old(self).next_msg_id),
            final(self).next_msg_id == old(self).next_msg_id + 1,
            final(self).emitted@ == old(self).emitted@.push(old(self).next_msg_id),
            final(self).id == old(self).id,
            final(self).peers == old(self).peers,
    {
        let id = self.alloc_msg_id();
        self.pending.push(id);
        MaelstromMessage {
            src: self.self_id(),
            dest,
            body: Body { msg_id: Some(id), in_reply_to: None, payload },
        }
    }

    /// Builds the body of an RPC request addressed outside the node/client
    /// space (a service such as `seq-kv`): fresh `msg_id` and one new
    /// correlation entry, exactly as `send_rpc`; the driver wraps it in an
    /// envelope for the service address.
    pub fn rpc_body<R>(&mut self, payload: R) -> (b: Body<R>)
        requires
            old(self).wf(),
            old(self).next_msg_id < u64::MAX,
        ensures
            final(self).wf(),
            b.in_reply_to is None,
            b.msg_id == Some(old(self).next_msg_id),
            b.payload == payload,
            !old(self).pending@.contains(old(self).next_msg_id),
            final(self).pending@ == old(self).pending@.push(old(self).next_msg_id),
            final(self).next_msg_id == old(self).next_msg_id + 1,
            final(self).emitted@ == old(self).emitted@.push(old(self).next_msg_id),
            final(self).id == old(self).id,
            final(self).peers == old(self).peers,
    {
        let id = self.alloc_msg_id();
        self.pending.push(id);
        Body { msg_id: Some(id), in_reply_to: None, payload }
    }

    /// Routes an inbound reply: looks up and removes the correlation entry
    /// for `in_reply_to`. Returns whether a caller was awaiting it; when
    /// none was (a late reply after a timeout, or an unsolicited
    /// correlation), the driver logs and drops the line. The same removal
    /// serves the timeout and cancellation paths, so a late reply can never
    /// be delivered twice.
    pub fn take_correlation(&mut self, in_reply_to: u64) -> (found: bool)
        requires
            old(self).wf(),
        ensures
            final(self).wf(),
            found == old(self).pending@.contains(in_reply_to),
            !final(self).pending@.contains(in_reply_to),
            forall|k: u64|
                k != in_reply_to ==> final(self).pending@.contains(k) == old(
                    self,
                ).pending@.contains(k),
            final(self).pending@.len() == old(self).pending@.len() - (if found {
                1int
            } else {
                0int
            }),
            final(self).next_msg_id == old(self).next_msg_id,
            final(self).emitted == old(self).emitted,
            final(self).id == old(self).id,
            final(self).peers == old(self).peers,
    {
        let ghost p0 = self.pending@;
        let mut i: usize = 0;
        while i < self.pending.len()
            invariant
                *self == *old(self),
                old(self).wf(),
                p0 == self.pending@,
                0 <= i <= p0.len(),
                forall|k: int| 0 <= k < i ==> p0[k] != in_reply_to,
            decreases p0.len() - i,
        {
            if self.pending[i] == in_reply_to {
                let ghost pos = i as int;
                self.pending.remove(i);
                proof {
                    let p1 = self.pending@;
                    assert(p1 =~= p0.subrange(0, pos) + p0.subrange(pos + 1, p0.len() as int));
                    assert(p0.contains(in_reply_to));
                    assert forall|a: int| 0 <= a < p1.len() implies p1[a] == p0[
                        if a < pos {
                            a
                        } else {
                            a + 1
                        }
                    ] by {}
                    assert forall|a: int, b: int| 0 <= a < b < p1.len() implies p1[a] != p1[b] by {
                        let pa = if a < pos {
                            a
                        } else {
                            a + 1
                        };
                        let pb = if b < pos {
                            b
                        } else {
                            b + 1
                        };
                        assert(p1[a] == p0[pa] && p1[b] == p0[pb]);
                    }
                    assert forall|a: int| 0 <= a < p1.len() implies p1[a] < self.next_msg_id by {
                        let pa = if a < pos {
                            a
                        } else {
                            a + 1
                        };
                        assert(p1[a] == p0[pa]);
                    }
                    assert forall|a: int| 0 <= a < p1.len() implies p1[a] != in_reply_to by {
                        let pa = if a < pos {
                            a
                        } else {
                            a + 1
                        };
                        assert(p1[a] == p0[pa]);
                        if pa != pos && p0[pa] == p0[pos] {
                            assert(false);
                        }
                    }
                    assert(!p1.contains(in_reply_to));
                    assert forall|k: u64| k != in_reply_to implies p1.contains(k) == p0.contains(
                        k,
                    ) by {
                        if p0.contains(k) {
                            let w = choose|w: int| 0 <= w < p0.len() && p0[w] == k;
                            if w < pos {
                                assert(p1[w] == k);
                            } else {
                                assert(p1[w - 1] == k);
                            }
                        }
                        if p1.contains(k) {
                            let w = choose|w: int| 0 <= w < p1.len() && p1[w] == k;
                            assert(p1[w] == p0[
                                if w < pos {
                                    w
                                } else {
                                    w + 1
                                }
                            ]);
                        }
                    }
                }
                return true;
            }
            i = i + 1;
        }
        proof {
            if p0.contains(in_reply_to) {
                let w = choose|w: int| 0 <= w < p0.len() && p0[w] == in_reply_to;
            }
        }
        false
    }

    /// Whether a reply for `msg_id` is still awaited.
    pub fn has_pending(&self, msg_id: u64) -> (r: bool)
        ensures
            r == self.pending@.contains(msg_id),
    {
        let mut i: usize = 0;
        while i < self.pending.len()
            invariant
                0 <= i <= self.pending@.len(),
                forall|k: int| 0 <= k < i ==> self.pending@[k] != msg_id,
            decreases self.pending@.len() - i,
        {
            if self.pending[i] == msg_id {
                return true;
            }
            i = i + 1;
        }
        proof {
            if self.pending@.contains(msg_id) {
                let w = choose|w: int|
                    0 <= w < self.pending@.len() && self.pending@[w] == msg_id;
            }
        }
        false
    }

    /// Bootstraps the node from the parsed `init` message: installs identity and
    /// peer list, and builds the `init_ok` acknowledgment, which carries the
    /// first allocated message id. Succeeds exactly when `node_id` is a
    /// well-formed node address and every entry of `node_ids` is a
    /// well-formed address.
    pub fn init(init_msg: &MaelstromMessage<Init>) -> (r: Result<
        (Node, MaelstromMessage<InitOk>),
        MaelstromError,
    >)
        ensures
            r is Ok <==> ({
                let own = init_msg.body.payload.node_id@;
                &&& own.len() >= 2
                &&& own[0] == 'n'
                &&& all_digits(own.skip(1))
                &&& dec_value(own.skip(1)) <= u32::MAX
                &&& forall|i: int|
                    0 <= i < init_msg.body.payload.node_ids@.len()
                        ==> crate::message::node_id_str_valid(
                        (#[trigger] init_msg.body.payload.node_ids@[i])@,
                    )
            }),
            r matches Ok((node, ack)) ==> {
                &&& node.wf()
                &&& init_msg.body.payload.node_id@.len() >= 2
                &&& init_msg.body.payload.node_id@[0] == 'n'
                &&& node.id == dec_value(init_msg.body.payload.node_id@.skip(1))
                &&& node.peers@.len() == init_msg.body.payload.node_ids@.len()
                &&& forall|i: int|
                    0 <= i < node.peers@.len() ==> #[trigger] node.peers@[i]
                        == crate::message::spec_parse_node_id(init_msg.body.payload.node_ids@[i]@)
                &&& node.next_msg_id == 1
                &&& node.pending@.len() == 0
                &&& ack.src == node.spec_self_id()
                &&& ack.dest == init_msg.src
                &&& ack.body.in_reply_to == init_msg.body.msg_id
                &&& ack.body.msg_id == Some(0u64)
                &&& ack.body.payload == (InitOk {  })
            },
            r matches Err(e) ==> e.code == crate::error::MALFORMED_REQUEST,
    {
        let id = match parse_node_id(init_msg.body.payload.node_id.as_str()) {
            Ok(id) => id,
            Err(e) => {
                return Err(e);
            },
        };
        let mut peers: Vec<NodeId> = Vec::new();
        let n = init_msg.body.payload.node_ids.len();
        let mut i: usize = 0;
        while i < n
            invariant
                0 <= i <= n == init_msg.body.payload.node_ids@.len(),
                peers@.len() == i,
                forall|k: int|
                    0 <= k < i ==> #[trigger] peers@[k] == crate::message::spec_parse_node_id(
                        init_msg.body.payload.node_ids@[k]@,
                    ),
                forall|k: int|
                    0 <= k < i ==> crate::message::node_id_str_valid(
                        (#[trigger] init_msg.body.payload.node_ids@[k])@,
                    ),
            decreases n - i,
        {
            match NodeId::parse(init_msg.body.payload.node_ids[i].as_str()) {
                Ok(p) => peers.push(p),
                Err(e) => {
                    proof {
                        assert(!crate::message::node_id_str_valid(
                            init_msg.body.payload.node_ids@[i as int]@,
                        ));
                    }
                    return Err(e);
                },
            }
            i = i + 1;
        }
        let mut node = Node {
            id,
            peers,
            next_msg_id: 0,
            pending: Vec::new(),
            emitted: Ghost(Seq::empty()),
        };
        let ack = node.reply(init_msg, InitOk {  });
        Ok((node, ack))
    }
}

/// Completes an RPC whose request carried `request_msg_id`: accepts the
/// delivered response only when its correlation matches, and surfaces a
/// Maelstrom error payload as an error result. A response observed by a
/// completed RPC therefore always has `in_reply_to` equal to the request's
/// `msg_id`; anything else is dropped (`None`).
pub fn complete_rpc<R>(request_msg_id: u64, response: MaelstromMessage<Result<R, MaelstromError>>)
    -> (r: Option<Result<R, MaelstromError>>)
    ensures
        r is Some <==> response.body.in_reply_to == Some(request_msg_id),
        r matches Some(out) ==> out == response.body.payload,
{
    match response.body.in_reply_to {
        Some(k) if k == request_msg_id => Some(response.body.payload),
        _ => None,
    }
}

/// Law: of any two message ids emitted by the same node, the later emission
/// has the strictly greater id.
pub proof fn lemma_msg_id_monotonic(n: Node, i: int, j: int)
    requires
        n.wf(),
        0 <= i < j < n.emitted@.len(),
    ensures
        n.emitted@[i] < n.emitted@[j],
{
}

/// A message handler: turns one inbound request into outbound messages, or
/// an error for the runtime to report back to the sender. Implementations
/// keep their own invariant, leave the node well-formed, keep its identity
/// and peers, and only move the message-id counter forward.
pub trait Handler<P, R> {
    /// The handler's own invariant, established at construction and
    /// preserved by every handled message.
    spec fn inv(&self) -> bool;

    fn handle(&mut self, node: &mut Node, msg: &MaelstromMessage<P>) -> (r: Result<
        Vec<MaelstromMessage<R>>,
        MaelstromError,
    >)
        requires
            old(self).inv(),
            old(node).wf(),
        ensures
            final(self).inv(),
            final(node).wf(),
            final(node).id == old(node).id,
            final(node).peers == old(node).peers,
            old(node).next_msg_id <= final(node).next_msg_id,
    ;
}

} // verus!
