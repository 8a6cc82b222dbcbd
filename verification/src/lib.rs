//! Spatial interest management and tiered replication for a multiplayer
//! world server.
//!
//! Connected agents ("observers") continuously report their position. Every
//! observer must see only the subset of other observers relevant to it, at a
//! fidelity proportional to distance, without the server paying a quadratic
//! cost per tick. The engine keeps a high-frequency position table, mirrors a
//! throttled subsample of it into a low-resolution table, maintains one
//! spatial window (a high-resolution box nested in a low-resolution box) per
//! observer, re-centers windows periodically when an observer has moved far
//! enough, and exposes the row-level visibility predicates that a
//! query/subscription layer applies before delivering rows to a subscriber.
//!
//! Coordinates are fixed-point world units held in `i64`; the host converts
//! its own floating-point coordinates at the boundary.

use vstd::prelude::*;

pub mod filters;
pub mod laws;
pub mod players;
pub mod positions;
pub mod store;
pub mod windows;
pub mod world;

verus! {

/// The low-resolution mirror is written on one movement report in
/// `LR_UPDATE_THRESHOLD`: the `update_count` counter cycles through
/// `0 .. LR_UPDATE_THRESHOLD - 1` and the mirror write happens exactly when
/// the counter would wrap.
pub const LR_UPDATE_THRESHOLD: u8 = 10;

/// Bound on every coordinate and window size the engine accepts, so that
/// squared displacements and box edges never overflow `i64`.
pub const COORD_LIMIT: i64 = 1_000_000_000;

/// How often the host is meant to fire the window-recompute pass. The pass
/// itself is idempotent, so a host that fires late, twice, or with
/// overlapping firings still converges to the same windows.
pub const WINDOW_RECOMPUTE_INTERVAL_MS: u64 = 500;

/// Window sizes used when an observer connects without asking for its own:
/// the low-resolution box is `DEFAULT_LR_SIZE` units wide and the
/// high-resolution box `DEFAULT_HR_SIZE`.
pub const DEFAULT_LR_SIZE: i64 = 256;

pub const DEFAULT_HR_SIZE: i64 = 128;

/// A coordinate the engine accepts.
pub open spec fn in_coord_range(v: int) -> bool {
    -COORD_LIMIT <= v <= COORD_LIMIT
}

/// A window size the engine accepts.
pub open spec fn in_size_range(v: int) -> bool {
    0 <= v <= COORD_LIMIT
}

/// How an engine operation can fail. Failures are scoped to the one observer
/// they concern and leave the tables unchanged.
#[derive(Clone, Copy, Debug, PartialEq, Eq, Structural)]
pub enum EngineError {
    /// The identity owns no hot rows: a benign race between a disconnect and
    /// an in-flight operation.
    NoSuchObserver,
    /// The identity already owns rows; connecting it again is refused.
    AlreadyConnected,
}

} // verus!
