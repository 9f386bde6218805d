//! Unix-socket endpoints, which live in the per-user runtime directory.

use vstd::prelude::*;

use crate::text::{decimal, push_char, push_decimal};
use vstd::string::StringExecFns;

verus! {

/// The runtime directory is usable only when it is a directory that denies
/// group and others entirely: `XDG_RUNTIME_DIR` is specified as a per-user
/// directory created 0700, and a loosened one is refused rather than
/// trusted for its name.
pub open spec fn private_dir(is_dir: bool, mode: u32) -> bool {
    is_dir && mode % 64 == 0
}

pub fn dir_is_private(is_dir: bool, mode: u32) -> (r: bool)
    ensures
        r == private_dir(is_dir, mode),
{
    assert(mode & 0o077 == mode % 64) by (bit_vector);
    is_dir && mode & 0o077 == 0
}

/// `dir` joined with `name` as a path: a `/` goes between them unless `dir`
/// is empty or already ends with one.
pub open spec fn path_join(dir: Seq<char>, name: Seq<char>) -> Seq<char> {
    if dir.len() == 0 {
        name
    } else if dir.last() == '/' {
        dir + name
    } else {
        dir.push('/') + name
    }
}

/// `discord-ipc-{slot}` in the runtime directory.
pub open spec fn slot_path(dir: Seq<char>, slot: u32) -> Seq<char> {
    path_join(dir, "discord-ipc-"@ + decimal(slot as nat))
}

/// The socket path of a slot in the runtime directory, or `None` when no
/// private runtime directory could be established, in which case the
/// bridge does not start at all.
pub fn socket_path(runtime_dir: Option<&str>, slot: u32) -> (r: Option<String>)
    ensures
        match runtime_dir {
            None => r is None,
            Some(d) => r matches Some(p) && p@ == slot_path(d@, slot),
        },
{
    let dir = match runtime_dir {
        Some(d) => d,
        None => return None,
    };
    let mut name = String::from_str("discord-ipc-");
    push_decimal(&mut name, slot as u64);
    let chars = crate::text::chars_of(dir);
    let mut p = String::from_str(dir);
    if chars.len() == 0 {
        return Some(name);
    }
    if chars[chars.len() - 1] != '/' {
        push_char(&mut p, '/');
    }
    p.append(name.as_str());
    Some(p)
}

} // verus!
