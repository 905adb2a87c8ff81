//! The closed Maelstrom error taxonomy: numeric codes, constructors, and a
//! human-readable rendering.

use vstd::prelude::*;

verus! {

pub const TIMEOUT: u32 = 0;
pub const NODE_NOT_FOUND: u32 = 1;
pub const NOT_SUPPORTED: u32 = 10;
pub const TEMPORARILY_UNAVAILABLE: u32 = 11;
pub const MALFORMED_REQUEST: u32 = 12;
pub const CRASH: u32 = 13;
pub const ABORT: u32 = 14;
pub const KEY_DOES_NOT_EXIST: u32 = 20;
pub const KEY_ALREADY_EXISTS: u32 = 21;
pub const PRECONDITION_FAILED: u32 = 22;
pub const TXN_CONFLICT: u32 = 23;

/// Codes on which the runtime terminates the process after replying.
pub open spec fn is_fatal_code(code: u32) -> bool {
    code == CRASH || code == ABORT
}

/// A wire-level Maelstrom error: `{type: "error", code, text}`.
#[derive(Clone, Debug, PartialEq, Eq)]
pub struct MaelstromError {
    pub text: String,
    pub code: u32,
}

pub open spec fn spec_code_name(code: u32) -> Seq<char> {
    if code == TIMEOUT {
        "Timeout"@
    } else if code == NODE_NOT_FOUND {
        "NodeNotFound"@
    } else if code == NOT_SUPPORTED {
        "NotSupported"@
    } else if code == TEMPORARILY_UNAVAILABLE {
        "TemporarilyUnavailable"@
    } else if code == MALFORMED_REQUEST {
        "MalformedRequest"@
    } else if code == CRASH {
        "Crash"@
    } else if code == ABORT {
        "Abort"@
    } else if code == KEY_DOES_NOT_EXIST {
        "KeyDoesNotExist"@
    } else if code == KEY_ALREADY_EXISTS {
        "KeyAlreadyExists"@
    } else if code == PRECONDITION_FAILED {
        "PreconditionFailed"@
    } else if code == TXN_CONFLICT {
        "TxnConflict"@
    } else {
        "Unknown"@
    }
}

impl MaelstromError {
    pub fn timeout(error_text: &str) -> (e: Self)
        ensures
            e.code == TIMEOUT,
            e.text@ == error_text@,
    {
        MaelstromError { text: error_text.to_owned(), code: TIMEOUT }
    }

    pub fn node_not_found(error_text: &str) -> (e: Self)
        ensures
            e.code == NODE_NOT_FOUND,
            e.text@ == error_text@,
    {
        MaelstromError { text: error_text.to_owned(), code: NODE_NOT_FOUND }
    }

    pub fn not_supported(error_text: &str) -> (e: Self)
        ensures
            e.code == NOT_SUPPORTED,
            e.text@ == error_text@,
    {
        MaelstromError { text: error_text.to_owned(), code: NOT_SUPPORTED }
    }

    pub fn temporarily_unavailable(error_text: &str) -> (e: Self)
        ensures
            e.code == TEMPORARILY_UNAVAILABLE,
            e.text@ == error_text@,
    {
        MaelstromError { text: error_text.to_owned(), code: TEMPORARILY_UNAVAILABLE }
    }

    pub fn malformed_request(error_text: &str) -> (e: Self)
        ensures
            e.code == MALFORMED_REQUEST,
            e.text@ == error_text@,
    {
        MaelstromError { text: error_text.to_owned(), code: MALFORMED_REQUEST }
    }

    pub fn crash(error_text: &str) -> (e: Self)
        ensures
            e.code == CRASH,
            e.text@ == error_text@,
    {
        MaelstromError { text: error_text.to_owned(), code: CRASH }
    }

    pub fn abort(error_text: &str) -> (e: Self)
        ensures
            e.code == ABORT,
            e.text@ == error_text@,
    {
        MaelstromError { text: error_text.to_owned(), code: ABORT }
    }

    pub fn key_does_not_exist(error_text: &str) -> (e: Self)
        ensures
            e.code == KEY_DOES_NOT_EXIST,
            e.text@ == error_text@,
    {
        MaelstromError { text: error_text.to_owned(), code: KEY_DOES_NOT_EXIST }
    }

    pub fn key_already_exists(error_text: &str) -> (e: Self)
        ensures
            e.code == KEY_ALREADY_EXISTS,
            e.text@ == error_text@,
    {
        MaelstromError { text: error_text.to_owned(), code: KEY_ALREADY_EXISTS }
    }

    pub fn precondition_failed(error_text: &str) -> (e: Self)
        ensures
            e.code == PRECONDITION_FAILED,
            e.text@ == error_text@,
    {
        MaelstromError { text: error_text.to_owned(), code: PRECONDITION_FAILED }
    }

    pub fn txn_conflict(error_text: &str) -> (e: Self)
        ensures
            e.code == TXN_CONFLICT,
            e.text@ == error_text@,
    {
        MaelstromError { text: error_text.to_owned(), code: TXN_CONFLICT }
    }

    /// Whether the runtime must terminate after replying with this error.
    pub fn is_fatal(&self) -> (r: bool)
        ensures
            r == is_fatal_code(self.code),
    {
        self.code == CRASH || self.code == ABORT
    }

    /// The symbolic name of this error's code.
    pub fn code_name(&self) -> (s: &'static str)
        ensures
            s@ == spec_code_name(self.code),
    {
        if self.code == TIMEOUT {
            "Timeout"
        } else if self.code == NODE_NOT_FOUND {
            "NodeNotFound"
        } else if self.code == NOT_SUPPORTED {
            "NotSupported"
        } else if self.code == TEMPORARILY_UNAVAILABLE {
            "TemporarilyUnavailable"
        } else if self.code == MALFORMED_REQUEST {
            "MalformedRequest"
        } else if self.code == CRASH {
            "Crash"
        } else if self.code == ABORT {
            "Abort"
        } else if self.code == KEY_DOES_NOT_EXIST {
            "KeyDoesNotExist"
        } else if self.code == KEY_ALREADY_EXISTS {
            "KeyAlreadyExists"
        } else if self.code == PRECONDITION_FAILED {
            "PreconditionFailed"
        } else if self.code == TXN_CONFLICT {
            "TxnConflict"
        } else {
            "Unknown"
        }
    }

    /// Renders the error as `Error: <CodeName>: '<text>'`.
    pub fn describe(&self) -> (s: String)
        ensures
            s@ == "Error: "@ + spec_code_name(self.code) + ": '"@ + self.text@ + "'"@,
    {
        let s = String::from_str("Error: ")
            .concat(self.code_name())
            .concat(": '")
            .concat(self.text.as_str())
            .concat("'");
        proof {
            assert(s@ == "Error: "@ + spec_code_name(self.code) + ": '"@ + self.text@ + "'"@);
        }
        s
    }
}

} // verus!
