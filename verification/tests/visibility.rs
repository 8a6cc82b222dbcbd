use spatial_interest::filters::hr_position_filter;
use spatial_interest::filters::lr_position_filter;
use spatial_interest::filters::online_filter;
use spatial_interest::positions::PlayerPosition;
use spatial_interest::windows::PlayerWindow;
use spatial_interest::world::World;

#[test]
fn hr_filter_is_inclusive_on_boundaries() {
    let w = PlayerWindow::new(1, 0, 0, 512, 256);
    assert!(hr_position_filter(&w, &PlayerPosition::new(2, 128, 0, -128)));
    assert!(hr_position_filter(&w, &PlayerPosition::new(2, -128, 0, 128)));
    assert!(!hr_position_filter(&w, &PlayerPosition::new(2, 129, 0, 0)));
    assert!(!hr_position_filter(&w, &PlayerPosition::new(2, 0, 0, -129)));
}

#[test]
fn lr_filter_is_the_exclusive_annulus() {
    let w = PlayerWindow::new(1, 0, 0, 512, 256);
    // Inside LR, outside HR: delivered at low fidelity.
    assert!(lr_position_filter(&w, &PlayerPosition::new(2, 200, 0, 0)));
    assert!(lr_position_filter(&w, &PlayerPosition::new(2, 0, 0, -200)));
    // Inside the HR box: never delivered through the LR tier.
    assert!(!lr_position_filter(&w, &PlayerPosition::new(2, 0, 0, 0)));
    assert!(!lr_position_filter(&w, &PlayerPosition::new(2, 128, 0, 128)));
    // Outside the LR box altogether.
    assert!(!lr_position_filter(&w, &PlayerPosition::new(2, 300, 0, 0)));
}

#[test]
fn lr_box_boundary_is_inclusive() {
    let w = PlayerWindow::new(1, 0, 0, 512, 256);
    assert!(lr_position_filter(&w, &PlayerPosition::new(2, 256, 0, 256)));
    assert!(!lr_position_filter(&w, &PlayerPosition::new(2, 257, 0, 0)));
}

#[test]
fn online_filter_follows_the_flag() {
    let mut w = World::new();
    w.on_connected(1).unwrap();
    let row = *w.players.find(1).unwrap();
    assert!(online_filter(&row));
    w.on_disconnected(1).unwrap();
    let row = *w.players.find(1).unwrap();
    assert!(!online_filter(&row));
}

#[test]
fn offline_observer_leaves_every_filter() {
    let mut w = World::new();
    w.on_connected_at(1, 0, 0, 0, 512, 256).unwrap();
    w.on_connected_at(2, 10, 0, 10, 512, 256).unwrap();
    w.on_disconnected(2).unwrap();
    let visible = w.visible_players();
    assert_eq!(visible.len(), 1);
    assert_eq!(visible[0].id, 1);
    // The hot rows are gone with it, so the spatial filters cannot return
    // it either, whatever the overlap was.
    let hr = w.hr_visible_positions(1).unwrap();
    assert!(hr.iter().all(|p| p.id != 2));
    let lr = w.lr_visible_positions(1).unwrap();
    assert!(lr.iter().all(|p| p.id != 2));
}

#[test]
fn disconnected_observer_keeps_last_coordinates() {
    let mut w = World::new();
    w.on_connected(1).unwrap();
    w.move_player(1, 12, 3, -4).unwrap();
    w.on_disconnected(1).unwrap();
    let row = *w.players.find(1).unwrap();
    assert!(!row.online);
    assert_eq!(row.x, 12);
    assert_eq!(row.y, 3);
    assert_eq!(row.z, -4);
    assert!(w.players_positions.find(1).is_none());
    assert!(w.players_positions_lr.find(1).is_none());
    assert!(w.players_windows.find(1).is_none());
}

#[test]
fn filters_for_unknown_observer_fail_benignly() {
    let w = World::new();
    assert!(w.hr_visible_positions(9).is_err());
    assert!(w.lr_visible_positions(9).is_err());
}

#[test]
fn tiered_delivery_scenario() {
    let mut w = World::new();
    // Observer A at the origin, HR box 256 wide, LR box 512 wide.
    w.on_connected_at(1, 0, 0, 0, 512, 256).unwrap();
    // Observer B well inside A's HR box.
    w.on_connected_at(2, 100, 0, 0, 512, 256).unwrap();
    // Observer C outside A's HR box `[-128, 128]` but inside A's LR box
    // `[-256, 256]`: seen at low fidelity only.
    w.on_connected_at(3, 200, 0, 0, 512, 256).unwrap();

    let hr = w.hr_visible_positions(1).unwrap();
    assert!(hr.iter().any(|p| p.id == 2));
    assert!(hr.iter().all(|p| p.id != 3));
    // A sees itself trivially; excluding self is the presentation layer's
    // business, not the filters'.
    assert!(hr.iter().any(|p| p.id == 1));

    let lr = w.lr_visible_positions(1).unwrap();
    assert!(lr.iter().any(|p| p.id == 3));
    assert!(lr.iter().all(|p| p.id != 1));
    assert!(lr.iter().all(|p| p.id != 2));

    // From B's side, A is inside its HR box too.
    let hr_b = w.hr_visible_positions(2).unwrap();
    assert!(hr_b.iter().any(|p| p.id == 1));
}

#[test]
fn low_fidelity_row_is_the_throttled_snapshot() {
    let mut w = World::new();
    w.on_connected_at(1, 0, 0, 0, 512, 256).unwrap();
    w.on_connected_at(3, 200, 0, 0, 512, 256).unwrap();
    // C drifts a little; fewer than a full throttle cycle of reports.
    w.move_player(3, 210, 0, 0).unwrap();
    w.move_player(3, 220, 0, 0).unwrap();
    let lr = w.lr_visible_positions(1).unwrap();
    // A still sees C's stale low-tier snapshot at its connect position.
    let c = lr.iter().find(|p| p.id == 3).unwrap();
    assert_eq!(c.x, 200);
}
