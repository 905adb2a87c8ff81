use gossip_glomers::counter::{AddOutcome, CounterHandler, CounterReply, CounterRequest};
use gossip_glomers::error::{
    MaelstromError, ABORT, MALFORMED_REQUEST, NOT_SUPPORTED,
};
use gossip_glomers::message::{Body, NodeId, NodeKind};
use gossip_glomers::seq_kv_client::{RequestPayload, ResponsePayload, SeqKvClient};
use gossip_glomers::{MaelstromMessage, Node};
use std::collections::HashMap;

fn client(id: u32) -> NodeId {
    NodeId { kind: NodeKind::Client, id }
}

fn node(id: u32) -> NodeId {
    NodeId { kind: NodeKind::Node, id }
}

/// A model of the sequential KV: applies one request to the store and
/// produces the outcome the service would send back.
fn model_kv(store: &mut HashMap<String, String>, req: &RequestPayload)
    -> Result<ResponsePayload, MaelstromError> {
    match req {
        RequestPayload::Read { key } => match store.get(key) {
            Some(v) => Ok(ResponsePayload::ReadOk { value: v.clone() }),
            None => Err(MaelstromError::key_does_not_exist("no such key")),
        },
        RequestPayload::Write { key, value } => {
            store.insert(key.clone(), value.clone());
            Ok(ResponsePayload::WriteOk)
        }
        RequestPayload::CompareAndSwap { key, from, to, create_if_not_exists } => {
            match store.get(key) {
                Some(v) if v == from => {
                    store.insert(key.clone(), to.clone());
                    Ok(ResponsePayload::CompareAndSwapOk)
                }
                Some(_) => Err(MaelstromError::precondition_failed("value changed")),
                None if *create_if_not_exists => {
                    store.insert(key.clone(), to.clone());
                    Ok(ResponsePayload::CompareAndSwapOk)
                }
                None => Err(MaelstromError::key_does_not_exist("no such key")),
            }
        }
    }
}

#[test]
fn cas_request_moves_value_by_delta() {
    let h = CounterHandler::new();
    let kv = SeqKvClient::new();
    let mut n = Node::new(0, vec![node(0)]);
    let body = h.add_after_read(&kv, &mut n, 5, Ok(10)).unwrap();
    match body.payload {
        RequestPayload::CompareAndSwap { key, from, to, create_if_not_exists } => {
            assert_eq!(key, "counter");
            assert_eq!(from, "10");
            assert_eq!(to, "15");
            assert!(create_if_not_exists);
        }
        p => panic!("expected cas, got {p:?}"),
    }
}

#[test]
fn missing_key_reads_as_zero_for_add() {
    let h = CounterHandler::new();
    let kv = SeqKvClient::new();
    let mut n = Node::new(0, vec![node(0)]);
    let outcome = Err(MaelstromError::key_does_not_exist("no such key"));
    let body = h.add_after_read(&kv, &mut n, -3, outcome).unwrap();
    match body.payload {
        RequestPayload::CompareAndSwap { from, to, .. } => {
            assert_eq!(from, "0");
            assert_eq!(to, "-3");
        }
        p => panic!("expected cas, got {p:?}"),
    }
}

#[test]
fn add_overflow_aborts() {
    let h = CounterHandler::new();
    let kv = SeqKvClient::new();
    let mut n = Node::new(0, vec![node(0)]);
    let e = h.add_after_read(&kv, &mut n, 1, Ok(i64::MAX)).unwrap_err();
    assert_eq!(e.code, ABORT);
}

#[test]
fn add_read_error_is_surfaced() {
    let h = CounterHandler::new();
    let kv = SeqKvClient::new();
    let mut n = Node::new(0, vec![node(0)]);
    let e = h
        .add_after_read(&kv, &mut n, 1, Err(MaelstromError::timeout("slow")))
        .unwrap_err();
    assert_eq!(e.code, gossip_glomers::error::TIMEOUT);
}

#[test]
fn cas_outcomes_classify() {
    let h = CounterHandler::new();
    assert!(matches!(h.add_after_cas(Ok(())), AddOutcome::Done));
    assert!(matches!(
        h.add_after_cas(Err(MaelstromError::precondition_failed("raced"))),
        AddOutcome::Retry
    ));
    assert!(matches!(
        h.add_after_cas(Err(MaelstromError::key_does_not_exist("gone"))),
        AddOutcome::Retry
    ));
    match h.add_after_cas(Err(MaelstromError::timeout("slow"))) {
        AddOutcome::Fail(e) => assert_eq!(e.code, gossip_glomers::error::TIMEOUT),
        o => panic!("expected fail, got {o:?}"),
    }
}

#[test]
fn read_reply_counts_missing_key_as_zero() {
    let h = CounterHandler::new();
    let mut n = Node::new(0, vec![node(0)]);
    let msg = MaelstromMessage {
        src: client(1),
        dest: node(0),
        body: Body {
            msg_id: Some(4),
            in_reply_to: None,
            payload: CounterRequest::Read,
        },
    };
    let reply = h
        .read_after_read(&mut n, &msg, Err(MaelstromError::key_does_not_exist("empty")))
        .unwrap();
    assert_eq!(reply.body.payload, CounterReply::ReadOk { value: 0 });
    assert_eq!(reply.dest, client(1));
    assert_eq!(reply.body.in_reply_to, Some(4));
    let reply = h.read_after_read(&mut n, &msg, Ok(7)).unwrap();
    assert_eq!(reply.body.payload, CounterReply::ReadOk { value: 7 });
}

/// Drives one `add` against the model KV until it settles.
fn run_add(
    h: &CounterHandler,
    kv: &SeqKvClient,
    n: &mut Node,
    store: &mut HashMap<String, String>,
    delta: i64,
    interfere: &mut dyn FnMut(&mut HashMap<String, String>),
) -> bool {
    loop {
        let read = h.start(kv, n);
        let read_outcome = kv.read_int(model_kv(store, &read.payload));
        // another client may slip in between the read and the CAS
        interfere(store);
        let cas = match h.add_after_read(kv, n, delta, read_outcome) {
            Ok(b) => b,
            Err(_) => return false,
        };
        let cas_outcome = kv.compare_and_swap(model_kv(store, &cas.payload));
        match h.add_after_cas(cas_outcome) {
            AddOutcome::Done => return true,
            AddOutcome::Retry => continue,
            AddOutcome::Fail(_) => return false,
        }
    }
}

#[test]
fn concurrent_adds_on_missing_key_total_two() {
    // two add{delta:1} racing on an initially missing key: both succeed and
    // the stored value ends at 2
    let h = CounterHandler::new();
    let kv = SeqKvClient::new();
    let mut n = Node::new(0, vec![node(0)]);
    let mut store: HashMap<String, String> = HashMap::new();

    // the first add runs with a rival add committing between read and CAS
    let mut rival_done = false;
    let ok_a = run_add(&h, &kv, &mut n, &mut store, 1, &mut |store| {
        if !rival_done {
            rival_done = true;
            // the rival reads the missing key as 0 and creates the key at 1
            store.insert(String::from("counter"), String::from("1"));
        }
    });
    assert!(ok_a);
    assert!(rival_done);
    assert_eq!(store.get("counter").map(String::as_str), Some("2"));
}

#[test]
fn kv_interpretation_is_exact() {
    let kv = SeqKvClient::new();
    assert_eq!(
        kv.read(Ok(ResponsePayload::ReadOk { value: String::from("7") })),
        Ok(String::from("7"))
    );
    assert_eq!(
        kv.read(Ok(ResponsePayload::WriteOk)).unwrap_err().code,
        NOT_SUPPORTED
    );
    assert_eq!(
        kv.read(Err(MaelstromError::timeout("slow"))).unwrap_err().code,
        gossip_glomers::error::TIMEOUT
    );
    assert_eq!(
        kv.read_int(Ok(ResponsePayload::ReadOk { value: String::from("-12") })),
        Ok(-12)
    );
    assert_eq!(
        kv.read_int(Ok(ResponsePayload::ReadOk { value: String::from("seven") }))
            .unwrap_err()
            .code,
        MALFORMED_REQUEST
    );
    assert_eq!(kv.write(Ok(ResponsePayload::WriteOk)), Ok(()));
    assert_eq!(
        kv.write(Ok(ResponsePayload::CompareAndSwapOk)).unwrap_err().code,
        NOT_SUPPORTED
    );
    assert_eq!(kv.compare_and_swap(Ok(ResponsePayload::CompareAndSwapOk)), Ok(()));
    assert_eq!(
        kv.compare_and_swap(Err(MaelstromError::precondition_failed("raced")))
            .unwrap_err()
            .code,
        gossip_glomers::error::PRECONDITION_FAILED
    );
}

#[test]
fn kv_requests_carry_keys_and_values() {
    let kv = SeqKvClient::new();
    let mut n = Node::new(0, vec![node(0)]);
    assert_eq!(kv.service_name(), "seq-kv");
    let b = kv.read_request(&mut n, "counter");
    assert!(matches!(b.payload, RequestPayload::Read { ref key } if key == "counter"));
    assert!(n.has_pending(b.msg_id.unwrap()));
    let b = kv.write_request(&mut n, "k", "v");
    assert!(
        matches!(b.payload, RequestPayload::Write { ref key, ref value } if key == "k" && value == "v")
    );
    let b = kv.cas_request(&mut n, "k", "1", "2", false);
    match b.payload {
        RequestPayload::CompareAndSwap { key, from, to, create_if_not_exists } => {
            assert_eq!((key.as_str(), from.as_str(), to.as_str()), ("k", "1", "2"));
            assert!(!create_if_not_exists);
        }
        p => panic!("expected cas, got {p:?}"),
    }
}
