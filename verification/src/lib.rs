//! Telemetry core of an endpoint-monitoring agent: a security-event data
//! model, a classifier that turns raw filesystem change notifications into
//! security events, a name-based suspicious-file heuristic, a JSON codec for
//! events, and a filesystem observer that feeds an output queue.
use vstd::prelude::*;

pub mod classify;
pub mod events;
pub mod json;
pub mod monitor;
pub mod strutil;

verus! {

/// What can go wrong in this crate: I/O failures, malformed JSON on
/// deserialize, failures of the underlying watch mechanism, and
/// programmer-raised message errors.
#[derive(Debug)]
pub enum PositronError {
    Io(String),
    Json(String),
    Notify(notify::Error),
    Message(String),
}

impl PositronError {
    /// One-line rendering of the error, with its cause where one is carried.
    pub fn message(&self) -> (r: String)
        ensures
            match self {
                PositronError::Io(m) => r@ == "I/O error: "@ + m@,
                PositronError::Json(m) => r@ == "JSON error: "@ + m@,
                PositronError::Notify(_) => r@.len() >= 26 && r@.subrange(0, 26)
                    == "File System notify error: "@,
                PositronError::Message(m) => r@ == m@,
            },
    {
        match self {
            PositronError::Io(m) => {
                let mut s = String::from_str("I/O error: ");
                s.append(m.as_str());
                s
            },
            PositronError::Json(m) => {
                let mut s = String::from_str("JSON error: ");
                s.append(m.as_str());
                s
            },
            PositronError::Notify(e) => {
                let mut s = String::from_str("File System notify error: ");
                let cause = crate::monitor::notify_error_text(e);
                s.append(cause.as_str());
                proof {
                    reveal_strlit("File System notify error: ");
                    assert("File System notify error: "@.len() == 26);
                    assert(s@.subrange(0, 26) =~= "File System notify error: "@);
                }
                s
            },
            PositronError::Message(m) => m.clone(),
        }
    }
}

impl From<notify::Error> for PositronError {
    fn from(err: notify::Error) -> (r: PositronError)
        ensures
            r == PositronError::Notify(err),
    {
        PositronError::Notify(err)
    }
}

impl vstd::std_specs::convert::FromSpecImpl<notify::Error> for PositronError {
    open spec fn obeys_from_spec() -> bool {
        true
    }

    open spec fn from_spec(t: notify::Error) -> PositronError {
        PositronError::Notify(t)
    }
}

/// Stand-in failure source used by demonstration harnesses: always succeeds.
pub fn simulate_error() -> (r: Result<(), PositronError>)
    ensures
        r is Ok,
{
    Ok(())
}

} // verus!
