use gossip_glomers::error::{
    MaelstromError, ABORT, CRASH, KEY_ALREADY_EXISTS, KEY_DOES_NOT_EXIST, MALFORMED_REQUEST,
    NODE_NOT_FOUND, NOT_SUPPORTED, PRECONDITION_FAILED, TEMPORARILY_UNAVAILABLE, TIMEOUT,
    TXN_CONFLICT,
};

#[test]
fn constructor_codes() {
    assert_eq!(MaelstromError::timeout("t").code, TIMEOUT);
    assert_eq!(MaelstromError::node_not_found("t").code, NODE_NOT_FOUND);
    assert_eq!(MaelstromError::not_supported("t").code, NOT_SUPPORTED);
    assert_eq!(
        MaelstromError::temporarily_unavailable("t").code,
        TEMPORARILY_UNAVAILABLE
    );
    assert_eq!(MaelstromError::malformed_request("t").code, MALFORMED_REQUEST);
    assert_eq!(MaelstromError::crash("t").code, CRASH);
    assert_eq!(MaelstromError::abort("t").code, ABORT);
    assert_eq!(MaelstromError::key_does_not_exist("t").code, KEY_DOES_NOT_EXIST);
    assert_eq!(MaelstromError::key_already_exists("t").code, KEY_ALREADY_EXISTS);
    assert_eq!(MaelstromError::precondition_failed("t").code, PRECONDITION_FAILED);
    assert_eq!(MaelstromError::txn_conflict("t").code, TXN_CONFLICT);
}

#[test]
fn numeric_code_table() {
    assert_eq!(TIMEOUT, 0);
    assert_eq!(NODE_NOT_FOUND, 1);
    assert_eq!(NOT_SUPPORTED, 10);
    assert_eq!(TEMPORARILY_UNAVAILABLE, 11);
    assert_eq!(MALFORMED_REQUEST, 12);
    assert_eq!(CRASH, 13);
    assert_eq!(ABORT, 14);
    assert_eq!(KEY_DOES_NOT_EXIST, 20);
    assert_eq!(KEY_ALREADY_EXISTS, 21);
    assert_eq!(PRECONDITION_FAILED, 22);
    assert_eq!(TXN_CONFLICT, 23);
}

#[test]
fn constructor_keeps_text() {
    let e = MaelstromError::timeout("RPC request timed out");
    assert_eq!(e.text, "RPC request timed out");
}

#[test]
fn code_names() {
    assert_eq!(MaelstromError::timeout("x").code_name(), "Timeout");
    assert_eq!(MaelstromError::node_not_found("x").code_name(), "NodeNotFound");
    assert_eq!(MaelstromError::not_supported("x").code_name(), "NotSupported");
    assert_eq!(
        MaelstromError::temporarily_unavailable("x").code_name(),
        "TemporarilyUnavailable"
    );
    assert_eq!(MaelstromError::malformed_request("x").code_name(), "MalformedRequest");
    assert_eq!(MaelstromError::crash("x").code_name(), "Crash");
    assert_eq!(MaelstromError::abort("x").code_name(), "Abort");
    assert_eq!(MaelstromError::key_does_not_exist("x").code_name(), "KeyDoesNotExist");
    assert_eq!(MaelstromError::key_already_exists("x").code_name(), "KeyAlreadyExists");
    assert_eq!(
        MaelstromError::precondition_failed("x").code_name(),
        "PreconditionFailed"
    );
    assert_eq!(MaelstromError::txn_conflict("x").code_name(), "TxnConflict");
    let unknown = MaelstromError {
        text: String::from("x"),
        code: 99,
    };
    assert_eq!(unknown.code_name(), "Unknown");
}

#[test]
fn describe_renders_code_and_text() {
    let e = MaelstromError::precondition_failed("topology already installed");
    assert_eq!(
        e.describe(),
        "Error: PreconditionFailed: 'topology already installed'"
    );
}

#[test]
fn fatal_codes() {
    assert!(MaelstromError::crash("x").is_fatal());
    assert!(MaelstromError::abort("x").is_fatal());
    assert!(!MaelstromError::timeout("x").is_fatal());
    assert!(!MaelstromError::precondition_failed("x").is_fatal());
}
