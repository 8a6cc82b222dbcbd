//! One spatial window per observer: a high-resolution (HR) box nested in a
//! low-resolution (LR) box, both axis-aligned squares centered on the
//! observer's position as of the last recompute, and the squared-distance
//! threshold past which the window is worth re-centering.

use vstd::prelude::*;

use crate::COORD_LIMIT;
use crate::in_coord_range;
use crate::in_size_range;
use crate::positions::PlayerPosition;

verus! {

/// One row of the window table. Boxes are inclusive on both sides:
/// `bl` (bottom-left) is the minimum corner, `tr` (top-right) the maximum.
/// `recompute_distance` is the squared displacement, from the center used
/// for the last recompute, at which the window is re-centered; it is derived
/// once from `hr_size` and never changes afterwards.
#[derive(Clone, Copy, Debug, PartialEq, Eq, Structural)]
pub struct PlayerWindow {
    pub id: u64,
    pub lr_bl_x: i64,
    pub lr_bl_z: i64,
    pub lr_tr_x: i64,
    pub lr_tr_z: i64,
    pub lr_size: i64,
    pub hr_bl_x: i64,
    pub hr_bl_z: i64,
    pub hr_tr_x: i64,
    pub hr_tr_z: i64,
    pub hr_size: i64,
    pub recompute_distance: i64,
}

/// Squared displacement of `(x, z)` from the center `(cx, cz)`.
pub open spec fn sq_displacement(cx: int, cz: int, x: int, z: int) -> int {
    (x - cx) * (x - cx) + (z - cz) * (z - cz)
}

impl PlayerWindow {
    /// The x coordinate of the center both boxes share.
    pub open spec fn center_x(self) -> int {
        self.hr_bl_x + self.hr_size / 2
    }

    /// The z coordinate of the center both boxes share.
    pub open spec fn center_z(self) -> int {
        self.hr_bl_z + self.hr_size / 2
    }

    /// Both boxes extend half their size out from `(x, z)` on each axis.
    pub open spec fn centered_at(self, x: int, z: int) -> bool {
        &&& self.hr_bl_x == x - self.hr_size / 2
        &&& self.hr_tr_x == x + self.hr_size / 2
        &&& self.hr_bl_z == z - self.hr_size / 2
        &&& self.hr_tr_z == z + self.hr_size / 2
        &&& self.lr_bl_x == x - self.lr_size / 2
        &&& self.lr_tr_x == x + self.lr_size / 2
        &&& self.lr_bl_z == z - self.lr_size / 2
        &&& self.lr_tr_z == z + self.lr_size / 2
    }

    /// Sizes and center in range, both boxes centered on the same point,
    /// and the recompute threshold derived from the HR size: the square of
    /// an eighth of it.
    pub open spec fn wf(self) -> bool {
        &&& in_size_range(self.hr_size as int)
        &&& in_size_range(self.lr_size as int)
        &&& in_coord_range(self.center_x())
        &&& in_coord_range(self.center_z())
        &&& self.centered_at(self.center_x(), self.center_z())
        &&& self.recompute_distance == (self.hr_size / 8) * (self.hr_size / 8)
    }

    /// The window for an observer at `(x, z)` with the given box sizes.
    pub open spec fn spec_new(id: u64, x: i64, z: i64, lr_size: i64, hr_size: i64) -> PlayerWindow {
        PlayerWindow {
            id,
            lr_bl_x: (x - lr_size / 2) as i64,
            lr_bl_z: (z - lr_size / 2) as i64,
            lr_tr_x: (x + lr_size / 2) as i64,
            lr_tr_z: (z + lr_size / 2) as i64,
            lr_size,
            hr_bl_x: (x - hr_size / 2) as i64,
            hr_bl_z: (z - hr_size / 2) as i64,
            hr_tr_x: (x + hr_size / 2) as i64,
            hr_tr_z: (z + hr_size / 2) as i64,
            hr_size,
            recompute_distance: ((hr_size / 8) * (hr_size / 8)) as i64,
        }
    }

    /// Builds the window for an observer at `(x, z)`: both boxes centered
    /// there, and the recompute threshold `(hr_size / 8)²`.
    pub fn new(id: u64, x: i64, z: i64, lr_size: i64, hr_size: i64) -> (r: PlayerWindow)
        requires
            in_coord_range(x as int),
            in_coord_range(z as int),
            in_size_range(lr_size as int),
            in_size_range(hr_size as int),
        ensures
            r == PlayerWindow::spec_new(id, x, z, lr_size, hr_size),
            r.wf(),
            r.centered_at(x as int, z as int),
            r.id == id,
            r.lr_size == lr_size,
            r.hr_size == hr_size,
            r.recompute_distance == (hr_size as int / 8) * (hr_size as int / 8),
    {
        let half_lr_size = lr_size / 2;
        let half_hr_size = hr_size / 2;
        let recompute_threshold = hr_size / 8;
        proof {
            assert(recompute_threshold * recompute_threshold <= 15_625_000_000_000_000)
                by (nonlinear_arith)
                requires
                    0 <= recompute_threshold <= 125_000_000,
            ;
            assert(recompute_threshold * recompute_threshold >= 0) by (nonlinear_arith)
                requires
                    0 <= recompute_threshold,
            ;
        }
        PlayerWindow {
            id,
            lr_bl_x: x - half_lr_size,
            lr_bl_z: z - half_lr_size,
            lr_tr_x: x + half_lr_size,
            lr_tr_z: z + half_lr_size,
            lr_size,
            hr_bl_x: x - half_hr_size,
            hr_bl_z: z - half_hr_size,
            hr_tr_x: x + half_hr_size,
            hr_tr_z: z + half_hr_size,
            hr_size,
            recompute_distance: recompute_threshold * recompute_threshold,
        }
    }

    /// Re-centers both boxes on `(x, z)`, keeping the sizes and the
    /// recompute threshold.
    pub fn recompute(&mut self, x: i64, z: i64)
        requires
            old(self).wf(),
            in_coord_range(x as int),
            in_coord_range(z as int),
        ensures
            *final(self) == PlayerWindow::spec_new(old(self).id, x, z, old(self).lr_size, old(self).hr_size),
            final(self).wf(),
            final(self).centered_at(x as int, z as int),
            final(self).id == old(self).id,
            final(self).lr_size == old(self).lr_size,
            final(self).hr_size == old(self).hr_size,
            final(self).recompute_distance == old(self).recompute_distance,
    {
        let half_lr_size = self.lr_size / 2;
        let half_hr_size = self.hr_size / 2;

        self.lr_bl_x = x - half_lr_size;
        self.lr_bl_z = z - half_lr_size;
        self.lr_tr_x = x + half_lr_size;
        self.lr_tr_z = z + half_lr_size;

        self.hr_bl_x = x - half_hr_size;
        self.hr_bl_z = z - half_hr_size;
        self.hr_tr_x = x + half_hr_size;
        self.hr_tr_z = z + half_hr_size;
    }

    /// Whether the observer, now at `(x, z)`, has drifted far enough from
    /// the window's last-recompute center that the window must be
    /// re-centered: squared displacement at or past the threshold.
    pub fn needs_recompute(&self, x: i64, z: i64) -> (r: bool)
        requires
            self.wf(),
            in_coord_range(x as int),
            in_coord_range(z as int),
        ensures
            r == (sq_displacement(self.center_x(), self.center_z(), x as int, z as int)
                >= self.recompute_distance),
    {
        let cx = self.hr_bl_x + self.hr_size / 2;
        let cz = self.hr_bl_z + self.hr_size / 2;
        let dx = x - cx;
        let dz = z - cz;
        proof {
            assert(0 <= dx * dx <= 4_000_000_000_000_000_000) by (nonlinear_arith)
                requires
                    -2_000_000_000 <= dx <= 2_000_000_000,
            ;
            assert(0 <= dz * dz <= 4_000_000_000_000_000_000) by (nonlinear_arith)
                requires
                    -2_000_000_000 <= dz <= 2_000_000_000,
            ;
        }
        dx * dx + dz * dz >= self.recompute_distance
    }
}

/// The window after one firing of the recompute pass looks at it beside its
/// owner's current position: re-centered on that position when the squared
/// displacement from the last-recompute center has reached the threshold,
/// untouched otherwise.
pub open spec fn recompute_step(w: PlayerWindow, p: PlayerPosition) -> PlayerWindow {
    if sq_displacement(w.center_x(), w.center_z(), p.x as int, p.z as int)
        >= w.recompute_distance {
        PlayerWindow::spec_new(w.id, p.x, p.z, w.lr_size, w.hr_size)
    } else {
        w
    }
}

} // verus!
