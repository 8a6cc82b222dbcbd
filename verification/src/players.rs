//! The observer table row: identity, vitals, online flag, and the last
//! known coordinates kept for cold storage once the observer disconnects.

use vstd::prelude::*;

use crate::in_coord_range;

verus! {

/// One row of the observer table. `x`, `y`, `z` are the coordinates the
/// observer last reported before disconnecting; while it is online the
/// authoritative coordinates live in the position tables.
#[derive(Clone, Copy, Debug, PartialEq, Eq, Structural)]
pub struct Player {
    pub id: u64,
    pub health: i64,
    pub max_health: i64,
    pub mana: i64,
    pub max_mana: i64,
    pub x: i64,
    pub y: i64,
    pub z: i64,
    pub online: bool,
}

impl Player {
    /// The row's coordinates are in range.
    pub open spec fn wf(self) -> bool {
        in_coord_range(self.x as int) && in_coord_range(self.y as int) && in_coord_range(
            self.z as int,
        )
    }

    /// The row a freshly connected observer starts from: full vitals, at the
    /// origin, online.
    pub open spec fn spec_new(id: u64) -> Player {
        Player {
            id,
            health: 100,
            max_health: 100,
            mana: 100,
            max_mana: 100,
            x: 0,
            y: 0,
            z: 0,
            online: true,
        }
    }

    pub fn new(id: u64) -> (r: Player)
        ensures
            r == Player::spec_new(id),
            r.wf(),
    {
        Player {
            id,
            health: 100,
            max_health: 100,
            mana: 100,
            max_mana: 100,
            x: 0,
            y: 0,
            z: 0,
            online: true,
        }
    }
}

} // verus!
