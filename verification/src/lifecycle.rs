//! The lifecycle manager's state machine: a single slot that holds at
//! most one running instance, identified by an abstract token the
//! runtime shell maps to its cancellation handle. Start tears the old
//! instance down before standing up the new one (so a failed start
//! leaves the slot empty, not the old instance restored), and stop is
//! idempotent and never errors.

use vstd::prelude::*;
use crate::strutil::{contains_char, dec_digits, u64_to_string};

verus! {

/// The managed slot: `None` when stopped, `Some(token)` while an
/// instance is running.
pub struct ServerSlot {
    pub instance: Option<u64>,
}

/// The status a stop reports: it describes what was stopped, and is a
/// success either way.
pub open spec fn spec_stop_message(s: Option<u64>) -> Seq<char> {
    if s is Some {
        "Server stopped"@
    } else {
        "No server running"@
    }
}

/// The stop transition: from any slot state to the stopped state, with
/// the status it reports.
pub open spec fn spec_stop(s: Option<u64>) -> (Option<u64>, Seq<char>) {
    (None, spec_stop_message(s))
}

impl ServerSlot {
    /// The slot of a fresh process: nothing running.
    pub fn new() -> (r: ServerSlot)
        ensures
            r.instance is None,
    {
        ServerSlot { instance: None }
    }

    /// First step of a start: take the current instance out for
    /// cancellation, leaving the slot empty. The caller signals the
    /// returned token fire-and-forget; no drain is awaited.
    pub fn take_current(&mut self) -> (r: Option<u64>)
        ensures
            final (self).instance is None,
            r == old(self).instance,
    {
        let r = self.instance;
        self.instance = None;
        r
    }

    /// Last step of a successful start: record the new instance. A
    /// start that fails between teardown and commit leaves the slot
    /// empty.
    pub fn commit_start(&mut self, token: u64)
        ensures
            final (self).instance == Some(token),
    {
        self.instance = Some(token);
    }

    /// Stops the current instance if any: empties the slot, hands back
    /// the token to cancel, and reports a status. Never an error.
    pub fn stop(&mut self) -> (r: (Option<u64>, String))
        ensures
            final (self).instance == spec_stop(old(self).instance).0,
            r.0 == old(self).instance,
            r.1@ == spec_stop(old(self).instance).1,
    {
        let cur = self.instance;
        self.instance = None;
        match cur {
            Some(t) => (Some(t), String::from_str("Server stopped")),
            None => (None, String::from_str("No server running")),
        }
    }
}

/// Stop idempotence: from any slot state, a stop leaves the slot empty
/// and yields a status (never an error, by its type), and a second stop
/// in a row yields the no-server status and keeps the slot empty.
pub proof fn lemma_stop_idempotent(s: Option<u64>)
    ensures
        spec_stop(s).0 is None,
        s is Some ==> spec_stop(s).1 == "Server stopped"@,
        s is None ==> spec_stop(s).1 == "No server running"@,
        spec_stop(spec_stop(s).0).0 is None,
        spec_stop(spec_stop(s).0).1 == "No server running"@,
{
}

/// Whether a configured store path is a bare file name, to be resolved
/// against the externally supplied configuration directory; a path
/// containing a separator is used verbatim.
pub fn db_path_is_bare(path: &str) -> (r: bool)
    ensures
        r == !((exists|i: int| 0 <= i < path@.len() && path@[i] == '/') || (exists|i: int|
            0 <= i < path@.len() && path@[i] == '\\')),
{
    let has_slash = contains_char(path, '/');
    let has_backslash = contains_char(path, '\\');
    !(has_slash || has_backslash)
}

/// The connection string for a resolved store path.
pub fn conn_string(path: &str) -> (r: String)
    ensures
        r@ == "sqlite:"@ + path@,
{
    let mut s = String::from_str("sqlite:");
    s.append(path);
    s
}

/// The status of a successful start.
pub fn start_message(port: u16) -> (r: String)
    ensures
        r@ == "Server started on port "@ + dec_digits(port as int),
{
    let mut s = String::from_str("Server started on port ");
    s.append(u64_to_string(port as u64).as_str());
    s
}

/// The failure text of a refused listener bind.
pub fn bind_error_message(port: u16, err: &str) -> (r: String)
    ensures
        r@ == "Failed to bind port "@ + dec_digits(port as int) + ": "@ + err@,
{
    let mut s = String::from_str("Failed to bind port ");
    s.append(u64_to_string(port as u64).as_str());
    s.append(": ");
    s.append(err);
    s
}

/// The failure text of a refused store connection.
pub fn connect_error_message(path: &str, err: &str) -> (r: String)
    ensures
        r@ == "Failed to connect to DB at "@ + path@ + ": "@ + err@,
{
    let mut s = String::from_str("Failed to connect to DB at ");
    s.append(path);
    s.append(": ");
    s.append(err);
    s
}

} // verus!
