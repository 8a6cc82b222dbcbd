//! The engine state: the four keyed tables, and the operations the host
//! runs as atomic transactions — connect, disconnect, movement report, and
//! one firing of the periodic window-recompute pass. Failures are scoped to
//! the one observer they concern and leave every table unchanged.

use vstd::prelude::*;

use crate::DEFAULT_HR_SIZE;
use crate::DEFAULT_LR_SIZE;
use crate::EngineError;
use crate::LR_UPDATE_THRESHOLD;
use crate::in_coord_range;
use crate::in_size_range;
use crate::players::Player;
use crate::positions::PlayerPosition;
use crate::positions::after_move;
use crate::positions::move_step;
use crate::positions::throttle_fires;
use crate::store::KeyedTable;
use crate::windows::PlayerWindow;
use crate::windows::recompute_step;

verus! {

/// The observer row right after a connect at `(x, y, z)`: full vitals,
/// online, the initial coordinates kept as the last known ones.
pub open spec fn connected_player(id: u64, x: i64, y: i64, z: i64) -> Player {
    Player {
        id,
        health: 100,
        max_health: 100,
        mana: 100,
        max_mana: 100,
        x,
        y,
        z,
        online: true,
    }
}

/// The observer row right after a disconnect: marked offline, with the last
/// reported coordinates copied in for cold storage.
pub open spec fn offline_player(pl: Player, pos: PlayerPosition) -> Player {
    Player { online: false, x: pos.x, y: pos.y, z: pos.z, ..pl }
}

/// The authoritative tables, each keyed by observer identity.
pub struct World {
    pub players: KeyedTable<Player>,
    pub players_positions: KeyedTable<PlayerPosition>,
    pub players_positions_lr: KeyedTable<PlayerPosition>,
    pub players_windows: KeyedTable<PlayerWindow>,
}

/// What one firing of the recompute pass leaves as observer `k`'s window:
/// re-centered on `k`'s current position when `k` has drifted past the
/// window's threshold, untouched otherwise — also untouched when `k`'s
/// position row has vanished mid-pass, a benign race the pass skips over.
pub open spec fn recomputed_in_pass(w0: World, k: u64) -> PlayerWindow
    recommends
        w0.players_windows@.contains_key(k),
{
    let w = w0.players_windows@[k];
    if w0.players_positions@.contains_key(k) {
        recompute_step(w, w0.players_positions@[k])
    } else {
        w
    }
}

impl World {
    /// Every table keeps one row per key; the row stored under a key names
    /// that key as its id and is well formed; the three hot tables share one
    /// key set, which is exactly the online part of the observer table.
    pub open spec fn wf(self) -> bool {
        &&& self.players.wf()
        &&& self.players_positions.wf()
        &&& self.players_positions_lr.wf()
        &&& self.players_windows.wf()
        &&& self.players_positions_lr@.dom() == self.players_positions@.dom()
        &&& self.players_windows@.dom() == self.players_positions@.dom()
        &&& forall|k: u64| #[trigger]
            self.players@.contains_key(k) ==> self.players@[k].id == k && self.players@[k].wf() && (
            self.players@[k].online <==> self.players_positions@.contains_key(k))
        &&& forall|k: u64| #[trigger]
            self.players_positions@.contains_key(k) ==> self.players@.contains_key(k)
                && self.players_positions@[k].id == k && self.players_positions@[k].wf()
        &&& forall|k: u64| #[trigger]
            self.players_positions_lr@.contains_key(k) ==> self.players_positions_lr@[k].id == k
                && self.players_positions_lr@[k].wf()
        &&& forall|k: u64| #[trigger]
            self.players_windows@.contains_key(k) ==> self.players_windows@[k].id == k
                && self.players_windows@[k].wf()
    }

    /// An empty world: no observer connected yet.
    pub fn new() -> (r: World)
        ensures
            r.wf(),
            r.players@ == Map::<u64, Player>::empty(),
            r.players_positions@ == Map::<u64, PlayerPosition>::empty(),
            r.players_positions_lr@ == Map::<u64, PlayerPosition>::empty(),
            r.players_windows@ == Map::<u64, PlayerWindow>::empty(),
            r.players.rows_seq() == Seq::<(u64, Player)>::empty(),
            r.players_positions.rows_seq() == Seq::<(u64, PlayerPosition)>::empty(),
            r.players_positions_lr.rows_seq() == Seq::<(u64, PlayerPosition)>::empty(),
            r.players_windows.rows_seq() == Seq::<(u64, PlayerWindow)>::empty(),
    {
        World {
            players: KeyedTable::new(),
            players_positions: KeyedTable::new(),
            players_positions_lr: KeyedTable::new(),
            players_windows: KeyedTable::new(),
        }
    }

    /// Connects an observer at `(x, y, z)` with the given window sizes, as
    /// one atomic unit: an online observer row, a high-tier position row, a
    /// low-tier seed mirrored from the same value, and a window centered on
    /// the initial position. Refuses an identity that already owns a row.
    pub fn on_connected_at(
        &mut self,
        id: u64,
        x: i64,
        y: i64,
        z: i64,
        lr_size: i64,
        hr_size: i64,
    ) -> (r: Result<(), EngineError>)
        requires
            old(self).wf(),
            in_coord_range(x as int),
            in_coord_range(y as int),
            in_coord_range(z as int),
            in_size_range(lr_size as int),
            in_size_range(hr_size as int),
        ensures
            final(self).wf(),
            old(self).players@.contains_key(id) ==> r == Err::<(), EngineError>(
                EngineError::AlreadyConnected,
            ) && *final(self) == *old(self),
            !old(self).players@.contains_key(id) ==> {
                &&& r == Ok::<(), EngineError>(())
                &&& final(self).players@ == old(self).players@.insert(
                    id,
                    connected_player(id, x, y, z),
                )
                &&& final(self).players_positions@ == old(self).players_positions@.insert(
                    id,
                    PlayerPosition::spec_new(id, x, y, z),
                )
                &&& final(self).players_positions_lr@ == old(self).players_positions_lr@.insert(
                    id,
                    PlayerPosition::spec_new(id, x, y, z),
                )
                &&& final(self).players_windows@ == old(self).players_windows@.insert(
                    id,
                    PlayerWindow::spec_new(id, x, z, lr_size, hr_size),
                )
                &&& final(self).players.rows_seq() == old(self).players.rows_seq().push(
                    (id, connected_player(id, x, y, z)),
                )
                &&& final(self).players_positions.rows_seq() == old(
                    self,
                ).players_positions.rows_seq().push((id, PlayerPosition::spec_new(id, x, y, z)))
                &&& final(self).players_positions_lr.rows_seq() == old(
                    self,
                ).players_positions_lr.rows_seq().push((id, PlayerPosition::spec_new(id, x, y, z)))
                &&& final(self).players_windows.rows_seq() == old(
                    self,
                ).players_windows.rows_seq().push(
                    (id, PlayerWindow::spec_new(id, x, z, lr_size, hr_size)),
                )
            },
    {
        if self.players.contains(id) {
            return Err(EngineError::AlreadyConnected);
        }
        proof {
            assert(!old(self).players_positions@.contains_key(id));
            assert(!old(self).players_positions_lr@.contains_key(id));
            assert(!old(self).players_windows@.contains_key(id));
        }
        let mut player = Player::new(id);
        player.x = x;
        player.y = y;
        player.z = z;
        self.players.insert(id, player);

        let position = PlayerPosition::new(id, x, y, z);
        self.players_positions.insert(id, position);
        self.players_positions_lr.insert(id, position);

        let window = PlayerWindow::new(id, x, z, lr_size, hr_size);
        self.players_windows.insert(id, window);
        proof {
            assert(self.players_positions_lr@.dom() =~= self.players_positions@.dom());
            assert(self.players_windows@.dom() =~= self.players_positions@.dom());
        }
        Ok(())
    }

    /// Connects an observer at the origin with the default window sizes, as
    /// the host does when a new session opens.
    pub fn on_connected(&mut self, id: u64) -> (r: Result<(), EngineError>)
        requires
            old(self).wf(),
        ensures
            final(self).wf(),
            old(self).players@.contains_key(id) ==> r == Err::<(), EngineError>(
                EngineError::AlreadyConnected,
            ) && *final(self) == *old(self),
            !old(self).players@.contains_key(id) ==> {
                &&& r == Ok::<(), EngineError>(())
                &&& final(self).players@ == old(self).players@.insert(
                    id,
                    connected_player(id, 0, 0, 0),
                )
                &&& final(self).players_positions@ == old(self).players_positions@.insert(
                    id,
                    PlayerPosition::spec_new(id, 0, 0, 0),
                )
                &&& final(self).players_positions_lr@ == old(self).players_positions_lr@.insert(
                    id,
                    PlayerPosition::spec_new(id, 0, 0, 0),
                )
                &&& final(self).players_windows@ == old(self).players_windows@.insert(
                    id,
                    PlayerWindow::spec_new(id, 0, 0, DEFAULT_LR_SIZE, DEFAULT_HR_SIZE),
                )
            },
    {
        self.on_connected_at(id, 0, 0, 0, DEFAULT_LR_SIZE, DEFAULT_HR_SIZE)
    }

    /// Disconnects an observer as one atomic unit: marks the observer row
    /// offline with its last reported coordinates, and destroys the three
    /// hot rows. An identity without hot rows fails benignly.
    pub fn on_disconnected(&mut self, id: u64) -> (r: Result<(), EngineError>)
        requires
            old(self).wf(),
        ensures
            final(self).wf(),
            !old(self).players_positions@.contains_key(id) ==> r == Err::<(), EngineError>(
                EngineError::NoSuchObserver,
            ) && *final(self) == *old(self),
            old(self).players_positions@.contains_key(id) ==> {
                &&& r == Ok::<(), EngineError>(())
                &&& final(self).players@ == old(self).players@.insert(
                    id,
                    offline_player(old(self).players@[id], old(self).players_positions@[id]),
                )
                &&& final(self).players_positions@ == old(self).players_positions@.remove(id)
                &&& final(self).players_positions_lr@ == old(self).players_positions_lr@.remove(id)
                &&& final(self).players_windows@ == old(self).players_windows@.remove(id)
            },
    {
        let position = match self.players_positions.find(id) {
            None => { return Err(EngineError::NoSuchObserver) },
            Some(p) => *p,
        };
        let player = match self.players.find(id) {
            None => { return Err(EngineError::NoSuchObserver) },
            Some(pl) => *pl,
        };
        let mut player = player;
        player.online = false;
        player.x = position.x;
        player.y = position.y;
        player.z = position.z;
        self.players.update(id, player);

        self.players_windows.delete(id);
        self.players_positions.delete(id);
        self.players_positions_lr.delete(id);
        proof {
            assert(self.players_positions_lr@.dom() =~= self.players_positions@.dom());
            assert(self.players_windows@.dom() =~= self.players_positions@.dom());
        }
        Ok(())
    }

    /// A movement report: the high-tier row always takes the new
    /// coordinates; the low-tier mirror is overwritten with the same value
    /// exactly when the throttle counter completes its cycle. An identity
    /// without a position row fails benignly with `NoSuchObserver`.
    pub fn move_player(&mut self, id: u64, x: i64, y: i64, z: i64) -> (r: Result<
        (),
        EngineError,
    >)
        requires
            old(self).wf(),
            in_coord_range(x as int),
            in_coord_range(y as int),
            in_coord_range(z as int),
        ensures
            final(self).wf(),
            !old(self).players_positions@.contains_key(id) ==> r == Err::<(), EngineError>(
                EngineError::NoSuchObserver,
            ) && *final(self) == *old(self),
            old(self).players_positions@.contains_key(id) ==> {
                let hot = old(self).players_positions@[id];
                &&& r == Ok::<(), EngineError>(())
                &&& final(self).players_positions@ == old(self).players_positions@.insert(
                    id,
                    after_move(hot, x, y, z),
                )
                &&& final(self).players_positions@[id].x == x
                &&& final(self).players_positions@[id].y == y
                &&& final(self).players_positions@[id].z == z
                &&& throttle_fires(hot) ==> final(self).players_positions_lr@ == old(
                    self,
                ).players_positions_lr@.insert(id, after_move(hot, x, y, z))
                &&& !throttle_fires(hot) ==> final(self).players_positions_lr@ == old(
                    self,
                ).players_positions_lr@
                &&& ({
                    let stepped = move_step(hot, old(self).players_positions_lr@[id], x, y, z);
                    &&& final(self).players_positions@[id] == stepped.0
                    &&& final(self).players_positions_lr@[id] == stepped.1
                })
                &&& final(self).players == old(self).players
                &&& final(self).players_windows == old(self).players_windows
            },
    {
        let hot = match self.players_positions.find(id) {
            None => { return Err(EngineError::NoSuchObserver) },
            Some(p) => *p,
        };
        let fires = hot.update_count >= LR_UPDATE_THRESHOLD - 1;
        let updated = PlayerPosition {
            id: hot.id,
            x,
            y,
            z,
            update_count: if fires {
                0
            } else {
                hot.update_count + 1
            },
        };
        if fires {
            proof {
                assert(old(self).players_positions_lr@.contains_key(id));
            }
            self.players_positions_lr.update(id, updated);
        }
        self.players_positions.update(id, updated);
        proof {
            assert(self.players_positions_lr@.dom() =~= self.players_positions@.dom());
            assert(self.players_windows@.dom() =~= self.players_positions@.dom());
        }
        Ok(())
    }

    /// One firing of the periodic recompute pass: walks every window row,
    /// reads its owner's current position, and re-centers the window when
    /// the owner has drifted past the window's threshold. A window whose
    /// owner's position row has vanished mid-pass is skipped, and the pass
    /// goes on with the rest.
    pub fn update_players_windows(&mut self)
        requires
            old(self).wf(),
        ensures
            final(self).wf(),
            final(self).players == old(self).players,
            final(self).players_positions == old(self).players_positions,
            final(self).players_positions_lr == old(self).players_positions_lr,
            final(self).players_windows@.dom() == old(self).players_windows@.dom(),
            forall|k: u64| #[trigger]
                old(self).players_windows@.contains_key(k) ==> final(self).players_windows@[k]
                    == recomputed_in_pass(*old(self), k),
    {
        let n = self.players_windows.len();
        let mut i: usize = 0;
        while i < n
            invariant
                old(self).wf(),
                self.players == old(self).players,
                self.players_positions == old(self).players_positions,
                self.players_positions_lr == old(self).players_positions_lr,
                self.players_windows.wf(),
                n == self.players_windows.rows_seq().len(),
                n == old(self).players_windows.rows_seq().len(),
                i <= n,
                self.players_windows@.dom() == old(self).players_windows@.dom(),
                forall|k: u64| #[trigger]
                    self.players_windows@.contains_key(k) ==> self.players_windows@[k].id == k
                        && self.players_windows@[k].wf(),
                forall|j: int|
                    0 <= j < n ==> (#[trigger] self.players_windows.rows_seq()[j]).0 == old(
                        self,
                    ).players_windows.rows_seq()[j].0,
                forall|j: int|
                    i <= j < n ==> #[trigger] self.players_windows.rows_seq()[j] == old(
                        self,
                    ).players_windows.rows_seq()[j],
                forall|j: int|
                    0 <= j < i ==> {
                        let k = (#[trigger] old(self).players_windows.rows_seq()[j]).0;
                        self.players_windows@[k] == recomputed_in_pass(*old(self), k)
                    },
            decreases n - i,
        {
            let row = self.players_windows.row_at(i);
            let k = row.0;
            let w = row.1;
            proof {
                assert(self.players_windows.rows_seq()[i as int] == old(
                    self,
                ).players_windows.rows_seq()[i as int]);
                old(self).players_windows.lemma_view_rows();
            }
            match self.players_positions.find(k) {
                None => {
                    proof {
                        assert(!old(self).players_positions@.contains_key(k));
                        assert(self.players_windows@[k] == recomputed_in_pass(*old(self), k));
                    }
                },
                Some(p) => {
                    let p = *p;
                    if w.needs_recompute(p.x, p.z) {
                        let mut w2 = w;
                        w2.recompute(p.x, p.z);
                        self.players_windows.update(k, w2);
                        proof {
                            assert(self.players_windows@.dom() =~= old(
                                self,
                            ).players_windows@.dom());
                        }
                    }
                },
            }
            i += 1;
        }
        proof {
            old(self).players_windows.lemma_view_rows();
            assert forall|k: u64| #[trigger]
                old(self).players_windows@.contains_key(k) implies self.players_windows@[k]
                == recomputed_in_pass(*old(self), k) by {
                let j = choose|j: int|
                    0 <= j < old(self).players_windows.rows_seq().len() && #[trigger] old(
                        self,
                    ).players_windows.rows_seq()[j] == (k, old(self).players_windows@[k]);
                assert(old(self).players_windows.rows_seq()[j].0 == k);
            }
        }
    }
}

} // verus!
