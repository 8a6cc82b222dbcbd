//! The visibility filter engine: the row-level predicates the
//! query/subscription boundary applies before delivering a row to a
//! subscriber, and the per-observer row selections they induce. The
//! predicates are pure functions of current table state.
//!
//! An observer row is visible only while `online`. A high-tier position row
//! is visible to an observer exactly when it lies in the observer's HR box.
//! A low-tier row is visible exactly when it lies in the LR box but not in
//! the HR box — the exclusive annulus, so no observer is delivered through
//! both tiers at once.

use vstd::prelude::*;

use crate::EngineError;
use crate::players::Player;
use crate::positions::PlayerPosition;
use crate::windows::PlayerWindow;
use crate::world::World;

verus! {

/// Whether `(x, z)` lies in the window's high-resolution box, boundaries
/// inclusive on both sides.
pub open spec fn in_hr_box(w: PlayerWindow, x: int, z: int) -> bool {
    w.hr_bl_x <= x <= w.hr_tr_x && w.hr_bl_z <= z <= w.hr_tr_z
}

/// Whether `(x, z)` lies in the window's low-resolution box, boundaries
/// inclusive on both sides.
pub open spec fn in_lr_box(w: PlayerWindow, x: int, z: int) -> bool {
    w.lr_bl_x <= x <= w.lr_tr_x && w.lr_bl_z <= z <= w.lr_tr_z
}

/// Whether `(x, z)` lies in the exclusive annulus: inside the LR box and
/// outside the HR box.
pub open spec fn in_lr_annulus(w: PlayerWindow, x: int, z: int) -> bool {
    in_lr_box(w, x, z) && !in_hr_box(w, x, z)
}

/// The online filter on an observer row.
pub fn online_filter(p: &Player) -> (r: bool)
    ensures
        r == p.online,
{
    p.online
}

/// The HR filter: whether a high-tier position row is visible to the owner
/// of the window.
pub fn hr_position_filter(w: &PlayerWindow, p: &PlayerPosition) -> (r: bool)
    ensures
        r == in_hr_box(*w, p.x as int, p.z as int),
{
    p.x >= w.hr_bl_x && p.x <= w.hr_tr_x && p.z >= w.hr_bl_z && p.z <= w.hr_tr_z
}

/// The LR filter: whether a low-tier position row is visible to the owner
/// of the window — in the LR box but outside the HR box.
pub fn lr_position_filter(w: &PlayerWindow, p: &PlayerPosition) -> (r: bool)
    ensures
        r == in_lr_annulus(*w, p.x as int, p.z as int),
{
    let in_lr = p.x >= w.lr_bl_x && p.x <= w.lr_tr_x && p.z >= w.lr_bl_z && p.z <= w.lr_tr_z;
    let in_hr = p.x >= w.hr_bl_x && p.x <= w.hr_tr_x && p.z >= w.hr_bl_z && p.z <= w.hr_tr_z;
    in_lr && !in_hr
}

/// The observer rows that pass the online filter, in table order.
pub open spec fn online_rows(s: Seq<(u64, Player)>) -> Seq<Player>
    decreases s.len(),
{
    if s.len() == 0 {
        Seq::empty()
    } else {
        let rest = online_rows(s.drop_last());
        if s.last().1.online {
            rest.push(s.last().1)
        } else {
            rest
        }
    }
}

/// The high-tier rows inside the window's HR box, in table order.
pub open spec fn hr_rows(w: PlayerWindow, s: Seq<(u64, PlayerPosition)>) -> Seq<PlayerPosition>
    decreases s.len(),
{
    if s.len() == 0 {
        Seq::empty()
    } else {
        let rest = hr_rows(w, s.drop_last());
        if in_hr_box(w, s.last().1.x as int, s.last().1.z as int) {
            rest.push(s.last().1)
        } else {
            rest
        }
    }
}

/// The low-tier rows inside the window's exclusive annulus, in table order.
pub open spec fn lr_rows(w: PlayerWindow, s: Seq<(u64, PlayerPosition)>) -> Seq<PlayerPosition>
    decreases s.len(),
{
    if s.len() == 0 {
        Seq::empty()
    } else {
        let rest = lr_rows(w, s.drop_last());
        if in_lr_annulus(w, s.last().1.x as int, s.last().1.z as int) {
            rest.push(s.last().1)
        } else {
            rest
        }
    }
}

/// Every row the online filter lets through is online and stands in the
/// table it was selected from.
pub proof fn lemma_online_rows_elem(s: Seq<(u64, Player)>, j: int)
    requires
        0 <= j < online_rows(s).len(),
    ensures
        online_rows(s)[j].online,
        exists|i: int| 0 <= i < s.len() && (#[trigger] s[i]).1 == online_rows(s)[j],
    decreases s.len(),
{
    let rest = online_rows(s.drop_last());
    if j < rest.len() {
        lemma_online_rows_elem(s.drop_last(), j);
        let i = choose|i: int|
            0 <= i < s.drop_last().len() && (#[trigger] s.drop_last()[i]).1 == rest[j];
        assert(s[i] == s.drop_last()[i]);
    } else {
        assert(s[s.len() - 1] == s.last());
    }
}

/// Every online row of the table comes through the online filter.
pub proof fn lemma_online_rows_complete(s: Seq<(u64, Player)>, i: int)
    requires
        0 <= i < s.len(),
        s[i].1.online,
    ensures
        online_rows(s).contains(s[i].1),
    decreases s.len(),
{
    let rest = online_rows(s.drop_last());
    if i < s.len() - 1 {
        assert(s.drop_last()[i] == s[i]);
        lemma_online_rows_complete(s.drop_last(), i);
        let j = choose|j: int| 0 <= j < rest.len() && rest[j] == s[i].1;
        assert(online_rows(s)[j] == s[i].1);
    } else {
        assert(s.last() == s[i]);
        assert(online_rows(s).last() == s[i].1);
    }
}

/// Every row the HR filter lets through lies in the HR box and stands in
/// the table it was selected from.
pub proof fn lemma_hr_rows_elem(w: PlayerWindow, s: Seq<(u64, PlayerPosition)>, j: int)
    requires
        0 <= j < hr_rows(w, s).len(),
    ensures
        in_hr_box(w, hr_rows(w, s)[j].x as int, hr_rows(w, s)[j].z as int),
        exists|i: int| 0 <= i < s.len() && (#[trigger] s[i]).1 == hr_rows(w, s)[j],
    decreases s.len(),
{
    let rest = hr_rows(w, s.drop_last());
    if j < rest.len() {
        lemma_hr_rows_elem(w, s.drop_last(), j);
        let i = choose|i: int|
            0 <= i < s.drop_last().len() && (#[trigger] s.drop_last()[i]).1 == rest[j];
        assert(s[i] == s.drop_last()[i]);
    } else {
        assert(s[s.len() - 1] == s.last());
    }
}

/// Every high-tier row inside the HR box comes through the HR filter.
pub proof fn lemma_hr_rows_complete(w: PlayerWindow, s: Seq<(u64, PlayerPosition)>, i: int)
    requires
        0 <= i < s.len(),
        in_hr_box(w, s[i].1.x as int, s[i].1.z as int),
    ensures
        hr_rows(w, s).contains(s[i].1),
    decreases s.len(),
{
    let rest = hr_rows(w, s.drop_last());
    if i < s.len() - 1 {
        assert(s.drop_last()[i] == s[i]);
        lemma_hr_rows_complete(w, s.drop_last(), i);
        let j = choose|j: int| 0 <= j < rest.len() && rest[j] == s[i].1;
        assert(hr_rows(w, s)[j] == s[i].1);
    } else {
        assert(s.last() == s[i]);
        assert(hr_rows(w, s).last() == s[i].1);
    }
}

/// Every row the LR filter lets through lies in the exclusive annulus and
/// stands in the table it was selected from.
pub proof fn lemma_lr_rows_elem(w: PlayerWindow, s: Seq<(u64, PlayerPosition)>, j: int)
    requires
        0 <= j < lr_rows(w, s).len(),
    ensures
        in_lr_annulus(w, lr_rows(w, s)[j].x as int, lr_rows(w, s)[j].z as int),
        exists|i: int| 0 <= i < s.len() && (#[trigger] s[i]).1 == lr_rows(w, s)[j],
    decreases s.len(),
{
    let rest = lr_rows(w, s.drop_last());
    if j < rest.len() {
        lemma_lr_rows_elem(w, s.drop_last(), j);
        let i = choose|i: int|
            0 <= i < s.drop_last().len() && (#[trigger] s.drop_last()[i]).1 == rest[j];
        assert(s[i] == s.drop_last()[i]);
    } else {
        assert(s[s.len() - 1] == s.last());
    }
}

/// Every low-tier row inside the exclusive annulus comes through the LR
/// filter.
pub proof fn lemma_lr_rows_complete(w: PlayerWindow, s: Seq<(u64, PlayerPosition)>, i: int)
    requires
        0 <= i < s.len(),
        in_lr_annulus(w, s[i].1.x as int, s[i].1.z as int),
    ensures
        lr_rows(w, s).contains(s[i].1),
    decreases s.len(),
{
    let rest = lr_rows(w, s.drop_last());
    if i < s.len() - 1 {
        assert(s.drop_last()[i] == s[i]);
        lemma_lr_rows_complete(w, s.drop_last(), i);
        let j = choose|j: int| 0 <= j < rest.len() && rest[j] == s[i].1;
        assert(lr_rows(w, s)[j] == s[i].1);
    } else {
        assert(s.last() == s[i]);
        assert(lr_rows(w, s).last() == s[i].1);
    }
}

impl World {
    /// The observer rows any subscriber may see: the online ones, in table
    /// order.
    pub open spec fn visible_players_seq(self) -> Seq<Player> {
        online_rows(self.players.rows_seq())
    }

    /// The high-tier rows the observer may see: those inside its window's
    /// HR box, in table order.
    pub open spec fn hr_visible_seq(self, observer: u64) -> Seq<PlayerPosition>
        recommends
            self.players_windows@.contains_key(observer),
    {
        hr_rows(self.players_windows@[observer], self.players_positions.rows_seq())
    }

    /// The low-tier rows the observer may see: those inside its window's
    /// exclusive annulus, in table order.
    pub open spec fn lr_visible_seq(self, observer: u64) -> Seq<PlayerPosition>
        recommends
            self.players_windows@.contains_key(observer),
    {
        lr_rows(self.players_windows@[observer], self.players_positions_lr.rows_seq())
    }

    /// Applies the online filter to the observer table.
    pub fn visible_players(&self) -> (r: Vec<Player>)
        requires
            self.wf(),
        ensures
            r@ == self.visible_players_seq(),
    {
        let n = self.players.len();
        let mut out: Vec<Player> = Vec::new();
        let mut i: usize = 0;
        while i < n
            invariant
                self.wf(),
                n == self.players.rows_seq().len(),
                i <= n,
                out@ == online_rows(self.players.rows_seq().take(i as int)),
            decreases n - i,
        {
            let ghost prefix = self.players.rows_seq().take(i as int);
            let row = self.players.row_at(i);
            proof {
                let step = prefix.push(self.players.rows_seq()[i as int]);
                assert(self.players.rows_seq().take(i + 1 as int) =~= step);
                assert(step.drop_last() =~= prefix);
                assert(step.last() == self.players.rows_seq()[i as int]);
            }
            if online_filter(&row.1) {
                out.push(row.1);
            }
            i += 1;
        }
        proof {
            assert(self.players.rows_seq().take(n as int) =~= self.players.rows_seq());
        }
        out
    }

    /// Applies the HR filter to the high-tier table for one observer.
    /// An observer without a window owns no rows any more: benign failure.
    pub fn hr_visible_positions(&self, observer: u64) -> (r: Result<Vec<PlayerPosition>, EngineError>)
        requires
            self.wf(),
        ensures
            match r {
                Ok(v) => self.players_windows@.contains_key(observer) && v@
                    == self.hr_visible_seq(observer),
                Err(e) => e == EngineError::NoSuchObserver && !self.players_windows@.contains_key(
                    observer,
                ),
            },
    {
        let w = match self.players_windows.find(observer) {
            None => { return Err(EngineError::NoSuchObserver) },
            Some(w) => *w,
        };
        let n = self.players_positions.len();
        let mut out: Vec<PlayerPosition> = Vec::new();
        let mut i: usize = 0;
        while i < n
            invariant
                self.wf(),
                w == self.players_windows@[observer],
                n == self.players_positions.rows_seq().len(),
                i <= n,
                out@ == hr_rows(w, self.players_positions.rows_seq().take(i as int)),
            decreases n - i,
        {
            let ghost prefix = self.players_positions.rows_seq().take(i as int);
            let row = self.players_positions.row_at(i);
            proof {
                let step = prefix.push(self.players_positions.rows_seq()[i as int]);
                assert(self.players_positions.rows_seq().take(i + 1 as int) =~= step);
                assert(step.drop_last() =~= prefix);
                assert(step.last() == self.players_positions.rows_seq()[i as int]);
            }
            if hr_position_filter(&w, &row.1) {
                out.push(row.1);
            }
            i += 1;
        }
        proof {
            assert(self.players_positions.rows_seq().take(n as int)
                =~= self.players_positions.rows_seq());
        }
        Ok(out)
    }

    /// Applies the LR filter to the low-tier table for one observer.
    /// An observer without a window owns no rows any more: benign failure.
    pub fn lr_visible_positions(&self, observer: u64) -> (r: Result<Vec<PlayerPosition>, EngineError>)
        requires
            self.wf(),
        ensures
            match r {
                Ok(v) => self.players_windows@.contains_key(observer) && v@
                    == self.lr_visible_seq(observer),
                Err(e) => e == EngineError::NoSuchObserver && !self.players_windows@.contains_key(
                    observer,
                ),
            },
    {
        let w = match self.players_windows.find(observer) {
            None => { return Err(EngineError::NoSuchObserver) },
            Some(w) => *w,
        };
        let n = self.players_positions_lr.len();
        let mut out: Vec<PlayerPosition> = Vec::new();
        let mut i: usize = 0;
        while i < n
            invariant
                self.wf(),
                w == self.players_windows@[observer],
                n == self.players_positions_lr.rows_seq().len(),
                i <= n,
                out@ == lr_rows(w, self.players_positions_lr.rows_seq().take(i as int)),
            decreases n - i,
        {
            let ghost prefix = self.players_positions_lr.rows_seq().take(i as int);
            let row = self.players_positions_lr.row_at(i);
            proof {
                let step = prefix.push(self.players_positions_lr.rows_seq()[i as int]);
                assert(self.players_positions_lr.rows_seq().take(i + 1 as int) =~= step);
                assert(step.drop_last() =~= prefix);
                assert(step.last() == self.players_positions_lr.rows_seq()[i as int]);
            }
            if lr_position_filter(&w, &row.1) {
                out.push(row.1);
            }
            i += 1;
        }
        proof {
            assert(self.players_positions_lr.rows_seq().take(n as int)
                =~= self.players_positions_lr.rows_seq());
        }
        Ok(out)
    }
}

} // verus!
