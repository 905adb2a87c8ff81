//! The replicated-counter workload: at-least-once additive writes over the
//! `seq-kv` service. An `add` runs read → compare-and-swap, retrying from
//! the read whenever the CAS loses a race; a `read` is a single KV read with
//! a missing key counted as zero. The runtime driver performs the RPCs and
//! feeds each outcome back into the step functions below.

use vstd::prelude::*;

use crate::decimal::{i64_to_dec, lemma_idec_round_trip, spec_i64_value, spec_idec};
use crate::error::MaelstromError;
use crate::message::{Body, MaelstromMessage};
use crate::node::Node;
use crate::seq_kv_client::{RequestPayload, SeqKvClient};

verus! {

/// Client requests of the counter workload.
#[derive(Clone, Copy, Debug, PartialEq, Eq, Structural)]
pub enum CounterRequest {
    Add { delta: i64 },
    Read,
}

/// Client replies of the counter workload.
#[derive(Clone, Copy, Debug, PartialEq, Eq, Structural)]
pub enum CounterReply {
    AddOk,
    ReadOk { value: i64 },
}

/// What the driver must do after a CAS outcome.
#[derive(Clone, Debug)]
pub enum AddOutcome {
    /// The CAS committed: reply `add_ok`.
    Done,
    /// The CAS lost a race (`precondition_failed`, or the key vanished):
    /// start over from the read.
    Retry,
    /// An unrecoverable error to surface to the client.
    Fail(MaelstromError),
}

/// The counter workload handler. It keeps no in-memory counter: the value
/// lives entirely in the external sequential KV under one fixed key.
pub struct CounterHandler {}

impl CounterHandler {
    pub fn new() -> (h: CounterHandler) {
        CounterHandler {  }
    }

    /// The fixed key the counter lives under.
    pub fn counter_key(&self) -> (s: &'static str)
        ensures
            s@ == "counter"@,
    {
        "counter"
    }

    /// Both operations begin by reading the counter key.
    pub fn start(&self, kv: &SeqKvClient, node: &mut Node) -> (b: Body<RequestPayload>)
        requires
            old(node).wf(),
            old(node).next_msg_id < u64::MAX,
        ensures
            final(node).wf(),
            b.msg_id == Some(old(node).next_msg_id),
            b.payload matches RequestPayload::Read { key } && key@ == "counter"@,
            final(node).pending@ == old(node).pending@.push(old(node).next_msg_id),
            final(node).next_msg_id == old(node).next_msg_id + 1,
            final(node).id == old(node).id,
            final(node).peers == old(node).peers,
    {
        kv.read_request(node, self.counter_key())
    }

    /// Continues an `add` after the read: proposes `current + delta` against
    /// the observed `current` (a missing key reads as zero), creating the
    /// key if it does not exist. An addition that would leave the 64-bit
    /// range aborts; any other read error is surfaced.
    pub fn add_after_read(
        &self,
        kv: &SeqKvClient,
        node: &mut Node,
        delta: i64,
        outcome: Result<i64, MaelstromError>,
    ) -> (r: Result<Body<RequestPayload>, MaelstromError>)
        requires
            old(node).wf(),
            old(node).next_msg_id < u64::MAX,
        ensures
            final(node).wf(),
            final(node).id == old(node).id,
            final(node).peers == old(node).peers,
            r is Ok ==> final(node).next_msg_id == old(node).next_msg_id + 1
                && final(node).pending@ == old(node).pending@.push(old(node).next_msg_id),
            r is Err ==> *final(node) == *old(node),
            ({
                let current: int = match outcome {
                    Ok(v) => v as int,
                    Err(e) => 0int,
                };
                match outcome {
                    Ok(_) | Err(MaelstromError { code: crate::error::KEY_DOES_NOT_EXIST, .. }) => {
                        if i64::MIN <= current + delta <= i64::MAX {
                            r matches Ok(b) && (b.payload matches RequestPayload::CompareAndSwap {
                                key,
                                from,
                                to,
                                create_if_not_exists,
                            } && key@ == "counter"@ && from@ == spec_idec(current) && to@
                                == spec_idec(current + delta) && create_if_not_exists == true)
                                && b.msg_id == Some(old(node).next_msg_id)
                        } else {
                            r matches Err(e) && e.code == crate::error::ABORT
                        }
                    },
                    Err(e) => r == Err::<Body<RequestPayload>, MaelstromError>(e),
                }
            }),
    {
        let current: i64 = match outcome {
            Ok(v) => v,
            Err(e) => {
                if e.code == crate::error::KEY_DOES_NOT_EXIST {
                    0
                } else {
                    return Err(e);
                }
            },
        };
        let overflows = if delta >= 0 {
            current > i64::MAX - delta
        } else {
            current < i64::MIN - delta
        };
        if overflows {
            return Err(MaelstromError::abort("counter value out of range"));
        }
        let proposed = current + delta;
        let from = i64_to_dec(current);
        let to = i64_to_dec(proposed);
        Ok(kv.cas_request(node, self.counter_key(), from.as_str(), to.as_str(), true))
    }

    /// Classifies the CAS outcome of an `add`: done on success, retry on a
    /// lost race, fail otherwise.
    pub fn add_after_cas(&self, outcome: Result<(), MaelstromError>) -> (r: AddOutcome)
        ensures
            outcome is Ok <==> r is Done,
            outcome matches Err(e) ==> (if e.code == crate::error::PRECONDITION_FAILED || e.code
                == crate::error::KEY_DOES_NOT_EXIST {
                r is Retry
            } else {
                r matches AddOutcome::Fail(f) && f == e
            }),
    {
        match outcome {
            Ok(()) => AddOutcome::Done,
            Err(e) => {
                if e.code == crate::error::PRECONDITION_FAILED || e.code
                    == crate::error::KEY_DOES_NOT_EXIST {
                    AddOutcome::Retry
                } else {
                    AddOutcome::Fail(e)
                }
            },
        }
    }

    /// Finishes a client `read` after the KV read: a missing key reads as
    /// zero, any other error is surfaced, and the reply carries the value.
    pub fn read_after_read(
        &self,
        node: &mut Node,
        msg: &MaelstromMessage<CounterRequest>,
        outcome: Result<i64, MaelstromError>,
    ) -> (r: Result<MaelstromMessage<CounterReply>, MaelstromError>)
        requires
            old(node).wf(),
            old(node).next_msg_id < u64::MAX,
        ensures
            final(node).wf(),
            final(node).id == old(node).id,
            final(node).peers == old(node).peers,
            final(node).pending == old(node).pending,
            r is Ok ==> final(node).next_msg_id == old(node).next_msg_id + 1,
            r is Err ==> *final(node) == *old(node),
            ({
                let value: int = match outcome {
                    Ok(v) => v as int,
                    Err(e) => 0int,
                };
                match outcome {
                    Ok(_) | Err(MaelstromError { code: crate::error::KEY_DOES_NOT_EXIST, .. }) => {
                        r matches Ok(m) && m.body.payload == (CounterReply::ReadOk {
                            value: value as i64,
                        }) && m.dest == msg.src && m.body.in_reply_to == msg.body.msg_id && m.src
                            == old(node).spec_self_id()
                    },
                    Err(e) => r == Err::<MaelstromMessage<CounterReply>, MaelstromError>(e),
                }
            }),
    {
        let value: i64 = match outcome {
            Ok(v) => v,
            Err(e) => {
                if e.code == crate::error::KEY_DOES_NOT_EXIST {
                    0
                } else {
                    return Err(e);
                }
            },
        };
        Ok(node.reply(msg, CounterReply::ReadOk { value }))
    }

    /// Builds the `add_ok` reply once the CAS has committed.
    pub fn add_ok_reply(&self, node: &mut Node, msg: &MaelstromMessage<CounterRequest>) -> (m:
        MaelstromMessage<CounterReply>)
        requires
            old(node).wf(),
            old(node).next_msg_id < u64::MAX,
        ensures
            final(node).wf(),
            final(node).id == old(node).id,
            final(node).peers == old(node).peers,
            final(node).pending == old(node).pending,
            final(node).next_msg_id == old(node).next_msg_id + 1,
            m.body.payload == CounterReply::AddOk,
            m.body.msg_id == Some(old(node).next_msg_id),
            m.dest == msg.src,
            m.body.in_reply_to == msg.body.msg_id,
            m.src == old(node).spec_self_id(),
    {
        node.reply(msg, CounterReply::AddOk)
    }
}

/// Law: the compare-and-swap an `add` issues moves the stored value by
/// exactly `delta`: the proposed value parses back as the observed value
/// plus `delta`. With the sequential KV committing the CAS only when the
/// stored value still equals `from`, each successful `add` increases the
/// counter by exactly its `delta`.
pub proof fn lemma_add_moves_by_delta(current: i64, delta: i64)
    requires
        i64::MIN <= current + delta <= i64::MAX,
    ensures
        spec_i64_value(spec_idec(current + delta)) == spec_i64_value(spec_idec(current as int))
            + delta,
{
    lemma_idec_round_trip(current);
    lemma_idec_round_trip((current + delta) as i64);
}

} // verus!
