//! Typed client for the sequentially consistent `seq-kv` service. Requests
//! are built here; the runtime driver performs the RPC and hands the outcome
//! back to the interpretation functions, which classify every possible
//! response exactly.

use vstd::prelude::*;

use crate::decimal::{parse_i64, parses_as_i64, spec_i64_value};
use crate::error::MaelstromError;
use crate::message::Body;
use crate::node::Node;

verus! {

/// Request payloads for the `seq-kv` service.
#[derive(Clone, Debug)]
pub enum RequestPayload {
    Read { key: String },
    Write { key: String, value: String },
    CompareAndSwap { key: String, from: String, to: String, create_if_not_exists: bool },
}

/// Response payloads of the `seq-kv` service.
#[derive(Clone, Debug)]
pub enum ResponsePayload {
    ReadOk { value: String },
    WriteOk,
    CompareAndSwapOk,
}

/// The outcome the driver hands back for one KV RPC: the service's typed
/// response, or the error that completed the call (a Maelstrom error reply,
/// a timeout, or cancellation).
pub type KvOutcome = Result<ResponsePayload, MaelstromError>;

/// Client for the `seq-kv` service. Holds no state of its own: the value
/// lives entirely in the external store.
pub struct SeqKvClient {}

impl SeqKvClient {
    pub fn new() -> (c: SeqKvClient) {
        SeqKvClient {  }
    }

    /// The well-known service address every request is sent to.
    pub fn service_name(&self) -> (s: &'static str)
        ensures
            s@ == "seq-kv"@,
    {
        "seq-kv"
    }

    /// Builds a `read` request body for `key`, correlated on `node`.
    pub fn read_request(&self, node: &mut Node, key: &str) -> (b: Body<RequestPayload>)
        requires
            old(node).wf(),
            old(node).next_msg_id < u64::MAX,
        ensures
            final(node).wf(),
            b.msg_id == Some(old(node).next_msg_id),
            b.in_reply_to is None,
            b.payload matches RequestPayload::Read { key: k } && k@ == key@,
            final(node).pending@ == old(node).pending@.push(old(node).next_msg_id),
            final(node).next_msg_id == old(node).next_msg_id + 1,
            final(node).id == old(node).id,
            final(node).peers == old(node).peers,
    {
        node.rpc_body(RequestPayload::Read { key: key.to_owned() })
    }

    /// Builds a `write` request body.
    pub fn write_request(&self, node: &mut Node, key: &str, value: &str) -> (b: Body<
        RequestPayload,
    >)
        requires
            old(node).wf(),
            old(node).next_msg_id < u64::MAX,
        ensures
            final(node).wf(),
            b.msg_id == Some(old(node).next_msg_id),
            b.in_reply_to is None,
            b.payload matches RequestPayload::Write { key: k, value: v } && k@ == key@ && v@
                == value@,
            final(node).pending@ == old(node).pending@.push(old(node).next_msg_id),
            final(node).next_msg_id == old(node).next_msg_id + 1,
            final(node).id == old(node).id,
            final(node).peers == old(node).peers,
    {
        node.rpc_body(RequestPayload::Write { key: key.to_owned(), value: value.to_owned() })
    }

    /// Builds a `cas` request body.
    pub fn cas_request(
        &self,
        node: &mut Node,
        key: &str,
        from: &str,
        to: &str,
        create_if_not_exists: bool,
    ) -> (b: Body<RequestPayload>)
        requires
            old(node).wf(),
            old(node).next_msg_id < u64::MAX,
        ensures
            final(node).wf(),
            b.msg_id == Some(old(node).next_msg_id),
            b.in_reply_to is None,
            b.payload matches RequestPayload::CompareAndSwap { key: k, from: f, to: t, create_if_not_exists: c }
                && k@ == key@ && f@ == from@ && t@ == to@ && c == create_if_not_exists,
            final(node).pending@ == old(node).pending@.push(old(node).next_msg_id),
            final(node).next_msg_id == old(node).next_msg_id + 1,
            final(node).id == old(node).id,
            final(node).peers == old(node).peers,
    {
        node.rpc_body(
            RequestPayload::CompareAndSwap {
                key: key.to_owned(),
                from: from.to_owned(),
                to: to.to_owned(),
                create_if_not_exists,
            },
        )
    }

    /// Interprets the outcome of a `read` RPC: the stored string on
    /// `read_ok`, any error verbatim, and `not_supported` for a response of
    /// the wrong shape.
    pub fn read(&self, outcome: KvOutcome) -> (r: Result<String, MaelstromError>)
        ensures
            outcome matches Ok(ResponsePayload::ReadOk { value }) ==> r == Ok::<
                String,
                MaelstromError,
            >(value),
            outcome matches Ok(p) && !(p is ReadOk) ==> (r matches Err(e) && e.code
                == crate::error::NOT_SUPPORTED),
            outcome matches Err(e) ==> r == Err::<String, MaelstromError>(e),
    {
        match outcome {
            Ok(ResponsePayload::ReadOk { value }) => Ok(value),
            Ok(_) => Err(MaelstromError::not_supported("Invalid response to read request")),
            Err(e) => Err(e),
        }
    }

    /// Interprets the outcome of a `read` RPC as a decimal integer. A stored
    /// value that is not a decimal integer is a malformed (internal)
    /// response.
    pub fn read_int(&self, outcome: KvOutcome) -> (r: Result<i64, MaelstromError>)
        ensures
            outcome matches Ok(ResponsePayload::ReadOk { value }) ==> (if parses_as_i64(value@) {
                r matches Ok(v) && v as int == spec_i64_value(value@)
            } else {
                r matches Err(e) && e.code == crate::error::MALFORMED_REQUEST
            }),
            outcome matches Ok(p) && !(p is ReadOk) ==> (r matches Err(e) && e.code
                == crate::error::NOT_SUPPORTED),
            outcome matches Err(e) ==> r == Err::<i64, MaelstromError>(e),
    {
        match self.read(outcome) {
            Ok(value) => match parse_i64(value.as_str()) {
                Some(v) => Ok(v),
                None => Err(MaelstromError::malformed_request("invalid integer value")),
            },
            Err(e) => Err(e),
        }
    }

    /// Interprets the outcome of a `write` RPC: success on `write_ok`, any
    /// error verbatim.
    pub fn write(&self, outcome: KvOutcome) -> (r: Result<(), MaelstromError>)
        ensures
            outcome matches Ok(p) ==> (r is Ok <==> p is WriteOk),
            outcome matches Ok(p) && !(p is WriteOk) ==> (r matches Err(e) && e.code
                == crate::error::NOT_SUPPORTED),
            outcome matches Err(e) ==> r == Err::<(), MaelstromError>(e),
    {
        match outcome {
            Ok(ResponsePayload::WriteOk) => Ok(()),
            Ok(_) => Err(MaelstromError::not_supported("Invalid response to write request")),
            Err(e) => Err(e),
        }
    }

    /// Interprets the outcome of a `cas` RPC: success on `cas_ok`, any error
    /// (in particular `precondition_failed` and `key_does_not_exist`)
    /// verbatim.
    pub fn compare_and_swap(&self, outcome: KvOutcome) -> (r: Result<(), MaelstromError>)
        ensures
            outcome matches Ok(p) ==> (r is Ok <==> p is CompareAndSwapOk),
            outcome matches Ok(p) && !(p is CompareAndSwapOk) ==> (r matches Err(e) && e.code
                == crate::error::NOT_SUPPORTED),
            outcome matches Err(e) ==> r == Err::<(), MaelstromError>(e),
    {
        match outcome {
            Ok(ResponsePayload::CompareAndSwapOk) => Ok(()),
            Ok(_) => Err(
                MaelstromError::not_supported("Invalid response to compare and swap request"),
            ),
            Err(e) => Err(e),
        }
    }
}

} // verus!
