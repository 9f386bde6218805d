//! Named-pipe endpoints, as Windows clients look for them.

use vstd::prelude::*;

use crate::text::{decimal, push_decimal};
use vstd::string::StringExecFns;

verus! {

/// `\\?\pipe\discord-ipc-{slot}`
pub open spec fn pipe_path(slot: u32) -> Seq<char> {
    "\\\\?\\pipe\\discord-ipc-"@ + decimal(slot as nat)
}

/// The pipe path of a slot. There is always one.
pub fn socket_path(slot: u32) -> (r: Option<String>)
    ensures
        r matches Some(p) && p@ == pipe_path(slot),
{
    let mut p = String::from_str("\\\\?\\pipe\\discord-ipc-");
    push_decimal(&mut p, slot as u64);
    Some(p)
}

/// Nothing to clean up: a named pipe disappears with its last handle.
pub fn remove_stale(path: &str) {
    let _ = path;
}

} // verus!
