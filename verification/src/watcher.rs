//! The outbox watcher's filter.
//!
//! The watcher observes a fixed set of outbox directories and forwards
//! the path of every newly created file whose name qualifies as a
//! message, through a bounded queue that blocks rather than drops when
//! full. Establishing the OS watch, receiving its events and running
//! the queue are the embedding program's work; the one decision made
//! per event — does this filename qualify? — is here.

use vstd::prelude::*;
use vstd::string::*;

verus! {

/// The filename ends in `.md`, compared case-insensitively, with at
/// least one character before the dot.
pub open spec fn spec_is_message_file(name: Seq<char>) -> bool {
    &&& name.len() >= 4
    &&& name[name.len() - 3] == '.'
    &&& (name[name.len() - 2] == 'm' || name[name.len() - 2] == 'M')
    &&& (name[name.len() - 1] == 'd' || name[name.len() - 1] == 'D')
}

/// Whether a newly created file qualifies for watcher pickup.
pub fn is_message_file(name: &str) -> (r: bool)
    ensures
        r == spec_is_message_file(name@),
{
    let n = name.unicode_len();
    if n < 4 {
        return false;
    }
    let dot = name.get_char(n - 3);
    let m = name.get_char(n - 2);
    let d = name.get_char(n - 1);
    dot == '.' && (m == 'm' || m == 'M') && (d == 'd' || d == 'D')
}

} // verus!
