//! Verified core of a client for a line-oriented, text-based control
//! protocol spoken by a local voice-chat application over TCP.
//!
//! This crate holds the protocol logic itself: frame-completion rules,
//! value escaping, the `key=value` record grammar, status decoding, the
//! typed commands built on them, and the decisions of the event loop.
//! The socket, the terminal and the timers live outside; they hand this
//! library plain strings and integers and act on what it returns.

use vstd::prelude::*;

pub mod text;
pub mod numbers;
pub mod query;
pub mod datastructures;
pub mod protocol;
pub mod session;

verus! {

/// True iff `payload` carries the protocol's frame terminator: the
/// two-character sequence `'\n'` then `'\r'`, in that order.
pub open spec fn spec_terminated(s: Seq<char>) -> bool {
    s.len() >= 2 && s[s.len() - 2] == '\n' && s[s.len() - 1] == '\r'
}

/// Every outbound frame must end with `"\n\r"`; writers check this
/// before touching the socket.
pub fn is_terminated(payload: &str) -> (r: bool)
    ensures
        r == spec_terminated(payload@),
{
    let n = payload.unicode_len();
    if n < 2 {
        return false;
    }
    let a = payload.get_char(n - 2);
    let b = payload.get_char(n - 1);
    a == '\n' && b == '\r'
}

} // verus!
