//! The echo workload: each `echo {echo}` is answered by `echo_ok` carrying
//! the same string verbatim.

use vstd::prelude::*;

use crate::error::MaelstromError;
use crate::message::MaelstromMessage;
use crate::node::{Handler, Node};

verus! {

#[derive(Clone, Debug)]
pub enum EchoRequest {
    Echo { echo: String },
}

#[derive(Clone, Debug)]
pub enum EchoReply {
    EchoOk { echo: String },
}

pub struct EchoHandler {}

impl EchoHandler {
    pub fn new() -> (h: EchoHandler) {
        EchoHandler {  }
    }

    /// Answers an `echo` request: the reply goes back to the sender,
    /// correlated on its `msg_id`, and echoes the payload string unchanged.
    pub fn handle_echo(&self, node: &mut Node, msg: &MaelstromMessage<EchoRequest>) -> (m:
        MaelstromMessage<EchoReply>)
        requires
            old(node).wf(),
            old(node).next_msg_id < u64::MAX,
        ensures
            final(node).wf(),
            final(node).id == old(node).id,
            final(node).peers == old(node).peers,
            final(node).pending == old(node).pending,
            final(node).next_msg_id == old(node).next_msg_id + 1,
            m.src == old(node).spec_self_id(),
            m.dest == msg.src,
            m.body.in_reply_to == msg.body.msg_id,
            m.body.msg_id == Some(old(node).next_msg_id),
            msg.body.payload matches EchoRequest::Echo { echo } ==> (m.body.payload
                matches EchoReply::EchoOk { echo: e } && e@ == echo@),
    {
        match &msg.body.payload {
            EchoRequest::Echo { echo } => node.reply(
                msg,
                EchoReply::EchoOk { echo: echo.clone() },
            ),
        }
    }
}

impl Handler<EchoRequest, EchoReply> for EchoHandler {
    open spec fn inv(&self) -> bool {
        true
    }

    /// Dispatch: one `echo_ok` reply per request, failing only when the
    /// message-id counter is exhausted.
    fn handle(&mut self, node: &mut Node, msg: &MaelstromMessage<EchoRequest>) -> (r: Result<
        Vec<MaelstromMessage<EchoReply>>,
        MaelstromError,
    >)
        ensures
            r is Ok <==> old(node).next_msg_id < u64::MAX,
            r matches Err(e) ==> e.code == crate::error::TEMPORARILY_UNAVAILABLE && *final(node)
                == *old(node),
            r matches Ok(out) ==> {
                &&& out@.len() == 1
                &&& out@[0].src == old(node).spec_self_id()
                &&& out@[0].dest == msg.src
                &&& out@[0].body.in_reply_to == msg.body.msg_id
                &&& (msg.body.payload matches EchoRequest::Echo { echo } ==> (out@[0].body.payload
                    matches EchoReply::EchoOk { echo: e } && e@ == echo@))
                &&& final(node).next_msg_id == old(node).next_msg_id + out@.len()
                &&& final(node).pending == old(node).pending
            },
    {
        if node.next_msg_id == u64::MAX {
            return Err(MaelstromError::temporarily_unavailable("message ids exhausted"));
        }
        let mut out: Vec<MaelstromMessage<EchoReply>> = Vec::new();
        out.push(self.handle_echo(node, msg));
        Ok(out)
    }
}

} // verus!
