//! The front-door dispatcher's placement rule: each new connection goes to
//! a sub-server with room, the fleet grows on demand up to a cap, and with
//! growth disabled everything lands on the first sub-server.

use vstd::prelude::*;

verus! {

/// Where the dispatcher sends a new connection.
#[derive(Clone, Copy, PartialEq, Eq, Structural, Debug)]
pub enum ServerPick {
    /// Hand the stream to the sub-server at this position.
    Existing(usize),
    /// Start a new sub-server on the next port and hand the stream to it.
    StartNew,
    /// The fleet is at its cap and full: hand the stream to the last
    /// sub-server anyway.
    Overflow,
}

/// Pick a sub-server for a new connection, given each sub-server's current
/// peer count. With growth off the first sub-server takes everything. With
/// growth on, the first sub-server with fewer than seven peers wins; when
/// all are full the fleet grows, unless it already reached `grow_limit`, in
/// which case the last sub-server overflows.
pub fn find_free_server(counts: &Vec<usize>, grow: bool, grow_limit: u16) -> (r: ServerPick)
    requires
        counts@.len() >= 1,
    ensures
        !grow ==> (r matches ServerPick::Existing(i) && i == 0),
        grow ==> match r {
            ServerPick::Existing(i) => i < counts@.len() && counts@[i as int] < 7 && forall|j: int|
                0 <= j < i ==> counts@[j] >= 7,
            ServerPick::StartNew => counts@.len() < grow_limit && forall|j: int|
                0 <= j < counts@.len() ==> counts@[j] >= 7,
            ServerPick::Overflow => counts@.len() >= grow_limit && forall|j: int|
                0 <= j < counts@.len() ==> counts@[j] >= 7,
        },
{
    if !grow {
        return ServerPick::Existing(0);
    }
    let mut i: usize = 0;
    while i < counts.len()
        invariant
            grow,
            i <= counts@.len(),
            forall|j: int| 0 <= j < i ==> counts@[j] >= 7,
        decreases counts@.len() - i,
    {
        if counts[i] < 7 {
            return ServerPick::Existing(i);
        }
        i = i + 1;
    }
    if counts.len() >= grow_limit as usize {
        ServerPick::Overflow
    } else {
        ServerPick::StartNew
    }
}

} // verus!
