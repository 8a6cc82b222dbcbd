//! Engine-wide guarantees, each proved once and for all inputs: how a run
//! of movement reports drives the two position tiers, and what the
//! visibility filters can never deliver.

use vstd::prelude::*;

use crate::LR_UPDATE_THRESHOLD;
use crate::filters::in_hr_box;
use crate::filters::in_lr_annulus;
use crate::filters::in_lr_box;
use crate::filters::lemma_hr_rows_elem;
use crate::filters::lemma_lr_rows_elem;
use crate::filters::lemma_online_rows_elem;
use crate::positions::PlayerPosition;
use crate::positions::after_move;
use crate::positions::move_step;
use crate::positions::throttle_fires;
use crate::windows::PlayerWindow;
use crate::windows::recompute_step;
use crate::windows::sq_displacement;
use crate::world::World;

verus! {

/// One observer's pair of rows — high tier, then low tier — after a run of
/// movement reports has been applied in order.
pub open spec fn apply_moves(
    hot: PlayerPosition,
    lr: PlayerPosition,
    moves: Seq<(i64, i64, i64)>,
) -> (PlayerPosition, PlayerPosition)
    decreases moves.len(),
{
    if moves.len() == 0 {
        (hot, lr)
    } else {
        let stepped = move_step(hot, lr, moves[0].0, moves[0].1, moves[0].2);
        apply_moves(stepped.0, stepped.1, moves.drop_first())
    }
}

/// How many of the movement reports in the run overwrite the low-tier
/// mirror.
pub open spec fn lr_write_count(hot: PlayerPosition, moves: Seq<(i64, i64, i64)>) -> nat
    decreases moves.len(),
{
    if moves.len() == 0 {
        0
    } else {
        (if throttle_fires(hot) {
            1nat
        } else {
            0nat
        }) + lr_write_count(after_move(hot, moves[0].0, moves[0].1, moves[0].2), moves.drop_first())
    }
}

/// The throttle cycle from an arbitrary counter value, as long as the run
/// does not carry the counter past one full cycle: the high tier always
/// holds the last report's coordinates; short of the cycle's end the mirror
/// is untouched and the counter has advanced by one per report; a run that
/// completes the cycle has written the mirror exactly once, on its last
/// report, and left the counter back at zero.
pub proof fn lemma_throttle_cycle_from(
    hot: PlayerPosition,
    lr: PlayerPosition,
    moves: Seq<(i64, i64, i64)>,
)
    requires
        hot.update_count + moves.len() <= LR_UPDATE_THRESHOLD,
    ensures
        ({
            let end = apply_moves(hot, lr, moves);
            &&& end.0.id == hot.id
            &&& moves.len() > 0 ==> end.0.x == moves.last().0 && end.0.y == moves.last().1
                && end.0.z == moves.last().2
            &&& hot.update_count + moves.len() < LR_UPDATE_THRESHOLD ==> end.1 == lr
                && end.0.update_count == hot.update_count + moves.len() && lr_write_count(
                hot,
                moves,
            ) == 0
            &&& moves.len() > 0 && hot.update_count + moves.len() == LR_UPDATE_THRESHOLD ==> end.1
                == end.0 && end.0.update_count == 0 && lr_write_count(hot, moves) == 1
        }),
    decreases moves.len(),
{
    if moves.len() > 0 {
        let m = moves[0];
        let stepped = move_step(hot, lr, m.0, m.1, m.2);
        let rest = moves.drop_first();
        lemma_throttle_cycle_from(stepped.0, stepped.1, rest);
        if rest.len() > 0 {
            assert(moves.last() == rest.last());
        }
    }
}

/// The replication throttle over one full cycle, starting from a fresh
/// counter: the high-tier row always reflects the most recent report; after
/// any `k < LR_UPDATE_THRESHOLD` reports the low-tier mirror is unchanged
/// and the counter reads `k`; after exactly `LR_UPDATE_THRESHOLD` reports
/// the mirror has been overwritten exactly once — on the last report, whose
/// coordinates it now carries — and the counter is back at zero.
pub proof fn lemma_replication_throttle(
    hot: PlayerPosition,
    lr: PlayerPosition,
    moves: Seq<(i64, i64, i64)>,
)
    requires
        hot.update_count == 0,
        moves.len() <= LR_UPDATE_THRESHOLD,
    ensures
        ({
            let end = apply_moves(hot, lr, moves);
            &&& moves.len() > 0 ==> end.0.x == moves.last().0 && end.0.y == moves.last().1
                && end.0.z == moves.last().2
            &&& moves.len() < LR_UPDATE_THRESHOLD ==> end.1 == lr && end.0.update_count
                == moves.len() && lr_write_count(hot, moves) == 0
            &&& moves.len() == LR_UPDATE_THRESHOLD ==> end.1 == end.0 && end.0.update_count == 0
                && lr_write_count(hot, moves) == 1 && end.1.x == moves.last().0 && end.1.y
                == moves.last().1 && end.1.z == moves.last().2
        }),
{
    lemma_throttle_cycle_from(hot, lr, moves);
}

/// The boxes nest: with an HR box no wider than the LR box, every point of
/// the HR box lies in the LR box too, since both share one center.
pub proof fn lemma_hr_box_inside_lr(w: PlayerWindow, x: int, z: int)
    requires
        w.wf(),
        w.hr_size <= w.lr_size,
    ensures
        in_hr_box(w, x, z) ==> in_lr_box(w, x, z),
{
}

/// Re-centering is idempotent: what one firing of the pass leaves as a
/// window, a second firing against the same position leaves untouched, so
/// repeated or overlapping firings are harmless.
pub proof fn lemma_recompute_step_idempotent(w: PlayerWindow, p: PlayerPosition)
    requires
        w.wf(),
        p.wf(),
    ensures
        recompute_step(recompute_step(w, p), p) == recompute_step(w, p),
{
    let w1 = recompute_step(w, p);
    assert(w1.wf());
    if sq_displacement(w.center_x(), w.center_z(), p.x as int, p.z as int)
        >= w.recompute_distance {
        assert(w1.center_x() == p.x as int);
        assert(w1.center_z() == p.z as int);
    }
}

/// Annulus exclusivity at the predicate level: a point inside the HR box
/// can never pass the LR filter, whatever the window.
pub proof fn lemma_annulus_exclusive(w: PlayerWindow, x: int, z: int)
    ensures
        in_hr_box(w, x, z) ==> !in_lr_annulus(w, x, z),
{
}

/// Annulus exclusivity at the table level: no row the LR filter delivers to
/// an observer lies inside that observer's HR box, so nothing is delivered
/// through both tiers at once.
pub proof fn lemma_no_duplicate_delivery(w0: World, observer: u64, j: int)
    requires
        w0.wf(),
        w0.players_windows@.contains_key(observer),
        0 <= j < w0.lr_visible_seq(observer).len(),
    ensures
        !in_hr_box(
            w0.players_windows@[observer],
            w0.lr_visible_seq(observer)[j].x as int,
            w0.lr_visible_seq(observer)[j].z as int,
        ),
{
    lemma_lr_rows_elem(
        w0.players_windows@[observer],
        w0.players_positions_lr.rows_seq(),
        j,
    );
}

/// An observer marked offline is never returned by any filter, whatever
/// the spatial overlap: it no longer owns position rows at either tier, and
/// its observer row fails the online filter.
pub proof fn lemma_offline_never_visible(w0: World, k: u64)
    requires
        w0.wf(),
        w0.players@.contains_key(k),
        !w0.players@[k].online,
    ensures
        !w0.players_positions@.contains_key(k),
        !w0.players_positions_lr@.contains_key(k),
        forall|j: int|
            0 <= j < w0.visible_players_seq().len() ==> (#[trigger] w0.visible_players_seq()[j]).id
                != k,
        forall|o: u64, j: int|
            w0.players_windows@.contains_key(o) && 0 <= j < w0.hr_visible_seq(o).len() ==> (
            #[trigger] w0.hr_visible_seq(o)[j]).id != k,
        forall|o: u64, j: int|
            w0.players_windows@.contains_key(o) && 0 <= j < w0.lr_visible_seq(o).len() ==> (
            #[trigger] w0.lr_visible_seq(o)[j]).id != k,
{
    assert(!w0.players_positions@.contains_key(k));
    assert forall|j: int|
        0 <= j < w0.visible_players_seq().len() implies (
    #[trigger] w0.visible_players_seq()[j]).id != k by {
        lemma_online_rows_elem(w0.players.rows_seq(), j);
        w0.players.lemma_view_rows();
        let p = w0.visible_players_seq()[j];
        let i = choose|i: int|
            0 <= i < w0.players.rows_seq().len() && (#[trigger] w0.players.rows_seq()[i]).1 == p;
        let key = w0.players.rows_seq()[i].0;
        assert(w0.players@.contains_key(key) && w0.players@[key] == p);
        assert(p.id == key);
    }
    assert forall|o: u64, j: int|
        w0.players_windows@.contains_key(o) && 0 <= j < w0.hr_visible_seq(o).len() implies (
    #[trigger] w0.hr_visible_seq(o)[j]).id != k by {
        lemma_hr_rows_elem(w0.players_windows@[o], w0.players_positions.rows_seq(), j);
        w0.players_positions.lemma_view_rows();
        let p = w0.hr_visible_seq(o)[j];
        let i = choose|i: int|
            0 <= i < w0.players_positions.rows_seq().len() && (
            #[trigger] w0.players_positions.rows_seq()[i]).1 == p;
        let key = w0.players_positions.rows_seq()[i].0;
        assert(w0.players_positions@.contains_key(key) && w0.players_positions@[key] == p);
        assert(p.id == key);
    }
    assert forall|o: u64, j: int|
        w0.players_windows@.contains_key(o) && 0 <= j < w0.lr_visible_seq(o).len() implies (
    #[trigger] w0.lr_visible_seq(o)[j]).id != k by {
        lemma_lr_rows_elem(w0.players_windows@[o], w0.players_positions_lr.rows_seq(), j);
        w0.players_positions_lr.lemma_view_rows();
        let p = w0.lr_visible_seq(o)[j];
        let i = choose|i: int|
            0 <= i < w0.players_positions_lr.rows_seq().len() && (
            #[trigger] w0.players_positions_lr.rows_seq()[i]).1 == p;
        let key = w0.players_positions_lr.rows_seq()[i].0;
        assert(w0.players_positions_lr@.contains_key(key) && w0.players_positions_lr@[key] == p);
        assert(p.id == key);
    }
}

} // verus!
