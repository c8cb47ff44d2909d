//! The caller-facing record for one listening endpoint: the host-order port,
//! the owning process identifier, a short display name for that process, and
//! its full executable path where it could be resolved.
use vstd::prelude::*;

use crate::resolve::{derive_display_name, display_name};
use crate::table::ListenerKey;

verus! {

/// One listening TCP endpoint of a snapshot. `process_path` is empty when the
/// owning process could not be opened or queried; `process_name` then falls
/// back to a synthetic `PID <n>` label.
#[derive(PartialEq, Eq, Debug)]
pub struct ListeningSocket {
    pub port: u16,
    pub pid: u32,
    pub process_name: String,
    pub process_path: String,
}

/// Assemble the caller-facing record for one retained row from its (port,
/// pid) pair and the resolved executable path; resolution failure (an empty
/// path) degrades to the synthetic name, never to an error.
pub fn build_socket(key: ListenerKey, path: String) -> (r: ListeningSocket)
    ensures
        r.port == key.port,
        r.pid == key.pid,
        r.process_path@ == path@,
        r.process_name@ == display_name(path@, key.pid as nat),
{
    let name = derive_display_name(path.as_str(), key.pid);
    ListeningSocket { port: key.port, pid: key.pid, process_name: name, process_path: path }
}

} // verus!
