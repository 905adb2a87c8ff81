//! The wire envelope `{src, dest, body{msg_id, in_reply_to?, payload}}` and
//! the typed node identifiers that address it.

use vstd::prelude::*;

use crate::decimal::{all_digits, dec_value, parse_u32, spec_udec, u64_to_dec};
use crate::error::MaelstromError;

verus! {

/// The two kinds of participants: cluster nodes (`n<id>`) and clients
/// (`c<id>`).
#[derive(Clone, Copy, Debug, PartialEq, Eq, Hash, Structural)]
pub enum NodeKind {
    Node,
    Client,
}

/// A typed participant identifier, serialized as a one-character kind prefix
/// followed by the decimal id.
#[derive(Clone, Copy, Debug, PartialEq, Eq, Hash, Structural)]
pub struct NodeId {
    pub kind: NodeKind,
    pub id: u32,
}

/// The string form of an identifier: `n<id>` or `c<id>`.
pub open spec fn spec_encode_node_id(n: NodeId) -> Seq<char> {
    (match n.kind {
        NodeKind::Node => seq!['n'],
        NodeKind::Client => seq!['c'],
    }) + spec_udec(n.id as nat)
}

/// Whether a string is a well-formed identifier: a kind prefix, then a
/// non-empty run of digits whose value fits in a `u32`.
pub open spec fn node_id_str_valid(s: Seq<char>) -> bool {
    s.len() >= 2 && (s[0] == 'n' || s[0] == 'c') && all_digits(s.skip(1)) && dec_value(s.skip(1))
        <= u32::MAX
}

/// The identifier a well-formed string denotes.
pub open spec fn spec_parse_node_id(s: Seq<char>) -> NodeId {
    NodeId {
        kind: if s[0] == 'n' {
            NodeKind::Node
        } else {
            NodeKind::Client
        },
        id: dec_value(s.skip(1)) as u32,
    }
}

impl NodeId {
    /// Renders the identifier in its wire form.
    pub fn encode(&self) -> (s: String)
        ensures
            s@ == spec_encode_node_id(*self),
    {
        let prefix = match self.kind {
            NodeKind::Node => "n",
            NodeKind::Client => "c",
        };
        let s = String::from_str(prefix).concat(u64_to_dec(self.id as u64).as_str());
        proof {
            reveal_strlit("n");
            reveal_strlit("c");
            assert(s@ =~= spec_encode_node_id(*self));
        }
        s
    }

    /// Parses an identifier from its wire form: the first byte selects the
    /// kind, the remainder must be an unsigned 32-bit decimal. Anything else
    /// is a malformed request.
    pub fn parse(s: &str) -> (r: Result<NodeId, MaelstromError>)
        ensures
            r is Ok <==> node_id_str_valid(s@),
            r matches Ok(n) ==> n == spec_parse_node_id(s@),
            r matches Err(e) ==> e.code == crate::error::MALFORMED_REQUEST,
    {
        let len = s.unicode_len();
        if len < 2 {
            return Err(MaelstromError::malformed_request("invalid node id"));
        }
        let c0 = s.get_char(0);
        let kind = if c0 == 'n' {
            NodeKind::Node
        } else if c0 == 'c' {
            NodeKind::Client
        } else {
            return Err(MaelstromError::malformed_request("invalid node id"));
        };
        let digits = s.substring_char(1, len);
        proof {
            assert(digits@ =~= s@.skip(1));
        }
        match parse_u32(digits) {
            Some(id) => Ok(NodeId { kind, id }),
            None => Err(MaelstromError::malformed_request("invalid node id")),
        }
    }
}

/// Encoding an identifier and parsing the result gives the identifier back.
pub proof fn lemma_node_id_round_trip(n: NodeId)
    ensures
        node_id_str_valid(spec_encode_node_id(n)),
        spec_parse_node_id(spec_encode_node_id(n)) == n,
{
    let s = spec_encode_node_id(n);
    crate::decimal::lemma_udec_is_digits(n.id as nat);
    crate::decimal::lemma_udec_value(n.id as nat);
    assert(s.skip(1) =~= spec_udec(n.id as nat));
}

/// The body of a message: correlation fields and the tagged payload.
#[derive(Clone, Debug)]
pub struct Body<P> {
    pub msg_id: Option<u64>,
    pub in_reply_to: Option<u64>,
    pub payload: P,
}

/// A full wire envelope.
#[derive(Clone, Debug)]
pub struct MaelstromMessage<P> {
    pub src: NodeId,
    pub dest: NodeId,
    pub body: Body<P>,
}

} // verus!
