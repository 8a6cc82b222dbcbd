//! The two position tiers and the replication throttle, at the level of one
//! observer's rows: the high-tier row tracks every movement report, and the
//! low-tier mirror is overwritten on one report in `LR_UPDATE_THRESHOLD`.

use vstd::prelude::*;

use crate::LR_UPDATE_THRESHOLD;
use crate::in_coord_range;

verus! {

/// One row of a position table. The same shape serves both tiers.
/// `update_count` only matters on the high tier, where it cycles through
/// `0 .. LR_UPDATE_THRESHOLD - 1` and marks how many reports have arrived
/// since the low-tier mirror was last written.
#[derive(Clone, Copy, Debug, PartialEq, Eq, Structural)]
pub struct PlayerPosition {
    pub id: u64,
    pub x: i64,
    pub y: i64,
    pub z: i64,
    pub update_count: u8,
}

impl PlayerPosition {
    /// Coordinates in range and the throttle counter inside its cycle.
    pub open spec fn wf(self) -> bool {
        &&& in_coord_range(self.x as int)
        &&& in_coord_range(self.y as int)
        &&& in_coord_range(self.z as int)
        &&& self.update_count < LR_UPDATE_THRESHOLD
    }

    pub open spec fn spec_new(id: u64, x: i64, y: i64, z: i64) -> PlayerPosition {
        PlayerPosition { id, x, y, z, update_count: 0 }
    }

    /// A fresh row: the given coordinates, with the throttle counter at the
    /// start of its cycle.
    pub fn new(id: u64, x: i64, y: i64, z: i64) -> (r: PlayerPosition)
        ensures
            r == PlayerPosition::spec_new(id, x, y, z),
    {
        PlayerPosition { id, x, y, z, update_count: 0 }
    }
}

/// Whether a movement report landing on this high-tier row also writes the
/// low-tier mirror: exactly when the counter sits on the last slot of its
/// cycle, so the mirror is written once per `LR_UPDATE_THRESHOLD` reports.
pub open spec fn throttle_fires(hot: PlayerPosition) -> bool {
    hot.update_count == LR_UPDATE_THRESHOLD - 1
}

/// The high-tier row after one movement report: always the new coordinates,
/// with the counter advanced one slot, back to zero when the throttle fires.
pub open spec fn after_move(hot: PlayerPosition, x: i64, y: i64, z: i64) -> PlayerPosition {
    PlayerPosition {
        x,
        y,
        z,
        update_count: if throttle_fires(hot) {
            0
        } else {
            (hot.update_count + 1) as u8
        },
        ..hot
    }
}

/// Both rows of one observer after one movement report: the high tier takes
/// the new coordinates, and the low tier is overwritten with the same row
/// exactly when the throttle fires.
pub open spec fn move_step(
    hot: PlayerPosition,
    lr: PlayerPosition,
    x: i64,
    y: i64,
    z: i64,
) -> (PlayerPosition, PlayerPosition) {
    let hot2 = after_move(hot, x, y, z);
    (hot2, if throttle_fires(hot) { hot2 } else { lr })
}

} // verus!
