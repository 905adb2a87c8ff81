//! The unique-id workload: each `generate` is answered with a version-6
//! UUID whose six-byte node field encodes the local node id, little-endian,
//! padded with two zero bytes. Distinct nodes therefore draw from disjoint
//! id spaces; within one node the generator's timestamp separates the ids.

use vstd::prelude::*;

use crate::error::MaelstromError;
use crate::message::MaelstromMessage;
use crate::node::{Handler, Node};

verus! {

/// Relies on uuid::Uuid: an opaque 128-bit identifier; its sixteen bytes
/// are observed only through `uuid_bytes` below.
#[verifier::external_type_specification]
#[verifier::external_body]
pub struct ExUuid(uuid::Uuid);

/// The sixteen bytes of a UUID, as `uuid::Uuid::as_bytes` exposes them.
pub uninterp spec fn uuid_bytes(u: uuid::Uuid) -> Seq<u8>;

/// Relies on uuid::Uuid::now_v6: builds a version-6 UUID from the current
/// timestamp and the given node field. The node field is copied verbatim
/// into the last six bytes; the rest depends on the clock, so nothing more
/// is stated of it. Panics if the system clock reads before the Unix epoch
/// — an environmental failure, like running out of memory, that no
/// precondition over the inputs can exclude.
#[verifier::external_body]
fn now_v6(node_field: &Vec<u8>) -> (u: uuid::Uuid)
    requires
        node_field@.len() == 6,
    ensures
        uuid_bytes(u).len() == 16,
        uuid_bytes(u).subrange(10, 16) == node_field@,
{
    let array: [u8; 6] = [
        node_field[0],
        node_field[1],
        node_field[2],
        node_field[3],
        node_field[4],
        node_field[5],
    ];
    uuid::Uuid::now_v6(&array)
}

/// Relies on uuid::Uuid::as_bytes: returns the UUID's sixteen bytes.
#[verifier::external_body]
fn bytes_of(u: &uuid::Uuid) -> (b: Vec<u8>)
    ensures
        b@ == uuid_bytes(*u),
        b@.len() == 16,
{
    u.as_bytes().to_vec()
}

/// The six-byte node field for a node id: its little-endian bytes, then two
/// zero bytes.
pub open spec fn spec_node_field(id: u32) -> Seq<u8> {
    seq![
        (id & 0xff) as u8,
        ((id >> 8) & 0xff) as u8,
        ((id >> 16) & 0xff) as u8,
        ((id >> 24) & 0xff) as u8,
        0u8,
        0u8,
    ]
}

fn node_field(id: u32) -> (v: Vec<u8>)
    ensures
        v@ == spec_node_field(id),
{
    let mut v: Vec<u8> = Vec::new();
    v.push((id & 0xff) as u8);
    v.push(((id >> 8) & 0xff) as u8);
    v.push(((id >> 16) & 0xff) as u8);
    v.push(((id >> 24) & 0xff) as u8);
    v.push(0);
    v.push(0);
    proof {
        assert(v@ =~= spec_node_field(id));
    }
    v
}

/// Draws a fresh version-6 UUID whose node field encodes `node_id`.
pub fn make_uuid(node_id: u32) -> (u: uuid::Uuid)
    ensures
        uuid_bytes(u).len() == 16,
        uuid_bytes(u).subrange(10, 16) == spec_node_field(node_id),
{
    let field = node_field(node_id);
    now_v6(&field)
}

/// Extracts the six-byte node field of a UUID.
pub fn uuid_node_field(u: &uuid::Uuid) -> (v: Vec<u8>)
    ensures
        v@ == uuid_bytes(*u).subrange(10, 16),
{
    let b = bytes_of(u);
    let mut v: Vec<u8> = Vec::new();
    let mut i: usize = 10;
    while i < 16
        invariant
            10 <= i <= 16,
            b@ == uuid_bytes(*u),
            b@.len() == 16,
            v@ =~= uuid_bytes(*u).subrange(10, i as int),
        decreases 16 - i,
    {
        v.push(b[i]);
        proof {
            assert(v@ =~= uuid_bytes(*u).subrange(10, i as int + 1));
        }
        i = i + 1;
    }
    v
}

/// Law: distinct node ids give distinct node fields, so ids generated by
/// distinct nodes never collide.
pub proof fn lemma_node_field_injective(a: u32, b: u32)
    requires
        a != b,
    ensures
        spec_node_field(a) != spec_node_field(b),
{
    if spec_node_field(a) == spec_node_field(b) {
        assert((a & 0xff) as u8 == (b & 0xff) as u8) by {
            assert(spec_node_field(a)[0] == spec_node_field(b)[0]);
        }
        assert(((a >> 8) & 0xff) as u8 == ((b >> 8) & 0xff) as u8) by {
            assert(spec_node_field(a)[1] == spec_node_field(b)[1]);
        }
        assert(((a >> 16) & 0xff) as u8 == ((b >> 16) & 0xff) as u8) by {
            assert(spec_node_field(a)[2] == spec_node_field(b)[2]);
        }
        assert(((a >> 24) & 0xff) as u8 == ((b >> 24) & 0xff) as u8) by {
            assert(spec_node_field(a)[3] == spec_node_field(b)[3]);
        }
        assert(false) by (bit_vector)
            requires
                (a & 0xff) as u8 == (b & 0xff) as u8,
                ((a >> 8) & 0xff) as u8 == ((b >> 8) & 0xff) as u8,
                ((a >> 16) & 0xff) as u8 == ((b >> 16) & 0xff) as u8,
                ((a >> 24) & 0xff) as u8 == ((b >> 24) & 0xff) as u8,
                a != b,
        ;
    }
}

#[derive(Clone, Copy, Debug, PartialEq, Eq, Structural)]
pub enum GenerateRequest {
    Generate,
}

#[derive(Clone, Copy, Debug)]
pub enum GenerateReply {
    GenerateOk { id: uuid::Uuid },
}

pub struct UniqueIdHandler {}

impl UniqueIdHandler {
    pub fn new() -> (h: UniqueIdHandler) {
        UniqueIdHandler {  }
    }

    /// Answers a `generate` request with a fresh UUID bound to this node.
    pub fn handle_generate(&self, node: &mut Node, msg: &MaelstromMessage<GenerateRequest>) -> (m:
        MaelstromMessage<GenerateReply>)
        requires
            old(node).wf(),
            old(node).next_msg_id < u64::MAX,
        ensures
            final(node).wf(),
            final(node).id == old(node).id,
            final(node).peers == old(node).peers,
            final(node).pending == old(node).pending,
            final(node).next_msg_id == old(node).next_msg_id + 1,
            m.src == old(node).spec_self_id(),
            m.dest == msg.src,
            m.body.in_reply_to == msg.body.msg_id,
            m.body.msg_id == Some(old(node).next_msg_id),
            m.body.payload matches GenerateReply::GenerateOk { id } && uuid_bytes(id).len() == 16
                && uuid_bytes(id).subrange(10, 16) == spec_node_field(old(node).id),
    {
        let id = make_uuid(node.id);
        node.reply(msg, GenerateReply::GenerateOk { id })
    }
}

impl Handler<GenerateRequest, GenerateReply> for UniqueIdHandler {
    open spec fn inv(&self) -> bool {
        true
    }

    /// Dispatch: one `generate_ok` reply per request, carrying a fresh
    /// node-bound id; fails only when the message-id counter is exhausted.
    fn handle(&mut self, node: &mut Node, msg: &MaelstromMessage<GenerateRequest>) -> (r: Result<
        Vec<MaelstromMessage<GenerateReply>>,
        MaelstromError,
    >)
        ensures
            r is Ok <==> old(node).next_msg_id < u64::MAX,
            r matches Err(e) ==> e.code == crate::error::TEMPORARILY_UNAVAILABLE && *final(node)
                == *old(node),
            r matches Ok(out) ==> {
                &&& out@.len() == 1
                &&& out@[0].src == old(node).spec_self_id()
                &&& out@[0].dest == msg.src
                &&& out@[0].body.in_reply_to == msg.body.msg_id
                &&& (out@[0].body.payload matches GenerateReply::GenerateOk { id }
                    && uuid_bytes(id).len() == 16 && uuid_bytes(id).subrange(10, 16)
                    == spec_node_field(old(node).id))
                &&& final(node).next_msg_id == old(node).next_msg_id + out@.len()
                &&& final(node).pending == old(node).pending
            },
    {
        if node.next_msg_id == u64::MAX {
            return Err(MaelstromError::temporarily_unavailable("message ids exhausted"));
        }
        let mut out: Vec<MaelstromMessage<GenerateReply>> = Vec::new();
        out.push(self.handle_generate(node, msg));
        Ok(out)
    }
}

} // verus!
