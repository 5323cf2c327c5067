//! Arriving on a floor: which floor, where the party stands and which way
//! it faces, and teleport requests that take the party to another floor.

use crate::dungeon::features::TeleportRequested;
use crate::dungeon::floor::{Direction, TeleportTarget};
use vstd::prelude::*;

verus! {

/// A teleport to another floor waiting for the floor to load.
#[derive(Clone, Copy, Debug, PartialEq, Eq, Structural)]
pub struct PendingTeleport {
    pub target: Option<TeleportTarget>,
}

impl Default for PendingTeleport {
    fn default() -> (r: Self)
        ensures
            r.target is None,
    {
        PendingTeleport { target: None }
    }
}

/// The floor to enter: the pending teleport's floor, else floor 1.
pub fn active_floor_number(pending: &PendingTeleport) -> (r: u32)
    ensures
        r == match pending.target {
            Some(t) => t.floor,
            None => 1,
        },
{
    match pending.target {
        Some(t) => t.floor,
        None => 1,
    }
}

/// Where the party starts on a floor whose entry is `entry`: at a pending
/// teleport's target (facing its facing, or the entry's), which is then
/// used up; otherwise at the entry.
pub fn party_start(pending: &mut PendingTeleport, entry: (u32, u32, Direction)) -> (r: (u32, u32, Direction))
    ensures
        final(pending).target is None,
        r == match old(pending).target {
            Some(t) => (t.x, t.y, match t.facing {
                Some(f) => f,
                None => entry.2,
            }),
            None => entry,
        },
{
    match pending.target {
        Some(t) => {
            pending.target = None;
            let facing = match t.facing {
                Some(f) => f,
                None => entry.2,
            };
            (t.x, t.y, facing)
        },
        None => entry,
    }
}

/// Takes the last of this frame's teleport requests, if any, as the
/// pending teleport; returns whether the floor must be (re)loaded.
pub fn handle_teleport_request(requests: &Vec<TeleportRequested>, pending: &mut PendingTeleport) -> (reload: bool)
    ensures
        reload == (requests@.len() > 0),
        reload ==> final(pending).target == Some(requests@.last().target),
        !reload ==> *final(pending) == *old(pending),
{
    if requests.len() == 0 {
        return false;
    }
    let last = requests[requests.len() - 1];
    pending.target = Some(last.target);
    true
}

/// After loading, go straight back to the dungeon when a teleport is pending.
pub fn redirect_to_dungeon_if_pending(pending: &PendingTeleport) -> (r: bool)
    ensures
        r == (pending.target is Some),
{
    pending.target.is_some()
}

/// The encounter table used for `floor_number`: only floor 1 has one, and
/// every floor uses it.
pub fn encounter_table_for(floor_number: u32) -> (r: u32)
    ensures
        r == 1,
{
    1
}

} // verus!
