//! What the session reports about a room.

use vstd::prelude::*;

verus! {

/// The relay's standing in a room.
#[derive(Clone, Copy, Debug, PartialEq, Eq, Structural)]
pub enum RoomStatus {
    /// Invited, not yet a member.
    Invited,
    /// An active member.
    Joined,
    /// Anything else: left, banned, unknown.
    Left,
}

} // verus!
