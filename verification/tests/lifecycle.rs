use spatial_interest::EngineError;
use spatial_interest::positions::PlayerPosition;
use spatial_interest::store::KeyedTable;
use spatial_interest::world::World;

#[test]
fn connect_creates_all_four_rows() {
    let mut w = World::new();
    w.on_connected(1).unwrap();
    let pl = *w.players.find(1).unwrap();
    assert!(pl.online);
    assert_eq!(pl.health, 100);
    assert_eq!(pl.max_health, 100);
    assert_eq!(pl.mana, 100);
    assert_eq!(pl.max_mana, 100);
    assert!(w.players_positions.find(1).is_some());
    assert!(w.players_positions_lr.find(1).is_some());
    let win = *w.players_windows.find(1).unwrap();
    // Default sizes: LR box 256 wide, HR box 128 wide.
    assert_eq!(win.lr_bl_x, -128);
    assert_eq!(win.lr_tr_x, 128);
    assert_eq!(win.hr_bl_x, -64);
    assert_eq!(win.hr_tr_x, 64);
    assert_eq!(win.recompute_distance, 256);
}

#[test]
fn connecting_twice_is_refused() {
    let mut w = World::new();
    w.on_connected(1).unwrap();
    let r = w.on_connected(1);
    assert_eq!(r, Err(EngineError::AlreadyConnected));
    // A reconnect after a disconnect is refused too: the observer row is
    // kept for cold storage.
    w.on_disconnected(1).unwrap();
    let r = w.on_connected(1);
    assert_eq!(r, Err(EngineError::AlreadyConnected));
}

#[test]
fn moving_an_unknown_observer_fails_benignly() {
    let mut w = World::new();
    let r = w.move_player(9, 1, 2, 3);
    assert_eq!(r, Err(EngineError::NoSuchObserver));
    w.on_connected(1).unwrap();
    w.on_disconnected(1).unwrap();
    // The race with a disconnect: the report is dropped, nothing else
    // changes.
    let r = w.move_player(1, 1, 2, 3);
    assert_eq!(r, Err(EngineError::NoSuchObserver));
    let row = *w.players.find(1).unwrap();
    assert_eq!(row.x, 0);
}

#[test]
fn disconnecting_twice_fails_benignly() {
    let mut w = World::new();
    w.on_connected(1).unwrap();
    w.on_disconnected(1).unwrap();
    assert_eq!(w.on_disconnected(1), Err(EngineError::NoSuchObserver));
    assert_eq!(w.on_disconnected(7), Err(EngineError::NoSuchObserver));
}

#[test]
fn recompute_pass_survives_disconnects() {
    let mut w = World::new();
    w.on_connected_at(1, 0, 0, 0, 512, 256).unwrap();
    w.on_connected_at(2, 0, 0, 0, 512, 256).unwrap();
    w.move_player(1, 500, 0, 0).unwrap();
    w.on_disconnected(2).unwrap();
    w.update_players_windows();
    let win = *w.players_windows.find(1).unwrap();
    assert_eq!(win.hr_bl_x, 500 - 128);
}

#[test]
fn keyed_table_enforces_one_row_per_key() {
    let mut t: KeyedTable<PlayerPosition> = KeyedTable::new();
    assert_eq!(t.len(), 0);
    assert!(t.insert(1, PlayerPosition::new(1, 10, 0, 0)));
    assert!(!t.insert(1, PlayerPosition::new(1, 99, 0, 0)));
    assert_eq!(t.len(), 1);
    assert_eq!(t.find(1).unwrap().x, 10);
    assert!(t.update(1, PlayerPosition::new(1, 20, 0, 0)));
    assert_eq!(t.find(1).unwrap().x, 20);
    assert!(!t.update(2, PlayerPosition::new(2, 1, 0, 0)));
    assert!(t.find(2).is_none());
    assert!(t.delete(1));
    assert!(!t.delete(1));
    assert!(t.find(1).is_none());
    assert_eq!(t.len(), 0);
}

#[test]
fn keyed_table_keeps_insertion_order() {
    let mut t: KeyedTable<PlayerPosition> = KeyedTable::new();
    t.insert(3, PlayerPosition::new(3, 30, 0, 0));
    t.insert(1, PlayerPosition::new(1, 10, 0, 0));
    t.insert(2, PlayerPosition::new(2, 20, 0, 0));
    assert_eq!(t.row_at(0).0, 3);
    assert_eq!(t.row_at(1).0, 1);
    assert_eq!(t.row_at(2).0, 2);
    assert!(t.contains(2));
    assert!(!t.contains(4));
}
