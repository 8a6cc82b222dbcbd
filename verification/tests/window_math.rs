use spatial_interest::windows::PlayerWindow;
use spatial_interest::world::World;

#[test]
fn recompute_distance_is_square_of_eighth_of_hr_size() {
    let w = PlayerWindow::new(1, 0, 0, 128, 256);
    assert_eq!(w.recompute_distance, 1024);
    let w2 = PlayerWindow::new(1, 0, 0, 512, 64);
    assert_eq!(w2.recompute_distance, 64);
}

#[test]
fn boxes_extend_half_size_around_center() {
    let w = PlayerWindow::new(1, 0, 0, 512, 256);
    assert_eq!(w.hr_bl_x, -128);
    assert_eq!(w.hr_tr_x, 128);
    assert_eq!(w.hr_bl_z, -128);
    assert_eq!(w.hr_tr_z, 128);
    assert_eq!(w.lr_bl_x, -256);
    assert_eq!(w.lr_tr_x, 256);
    assert_eq!(w.lr_bl_z, -256);
    assert_eq!(w.lr_tr_z, 256);
}

#[test]
fn boxes_follow_offcenter_position() {
    let w = PlayerWindow::new(1, 1000, -40, 200, 100);
    assert_eq!(w.hr_bl_x, 950);
    assert_eq!(w.hr_tr_x, 1050);
    assert_eq!(w.hr_bl_z, -90);
    assert_eq!(w.hr_tr_z, 10);
    assert_eq!(w.lr_bl_x, 900);
    assert_eq!(w.lr_tr_x, 1100);
}

#[test]
fn recompute_recenters_and_keeps_threshold() {
    let mut w = PlayerWindow::new(1, 0, 0, 512, 256);
    let rd = w.recompute_distance;
    w.recompute(300, -100);
    assert_eq!(w.hr_bl_x, 172);
    assert_eq!(w.hr_tr_x, 428);
    assert_eq!(w.hr_bl_z, -228);
    assert_eq!(w.hr_tr_z, 28);
    assert_eq!(w.lr_bl_x, 44);
    assert_eq!(w.lr_tr_x, 556);
    assert_eq!(w.recompute_distance, rd);
    assert_eq!(w.hr_size, 256);
    assert_eq!(w.lr_size, 512);
}

#[test]
fn pass_skips_window_below_threshold() {
    let mut w = World::new();
    // hr_size 256: recompute at squared displacement 1024 or more.
    w.on_connected_at(1, 0, 0, 0, 512, 256).unwrap();
    w.move_player(1, 30, 0, 0).unwrap();
    w.update_players_windows();
    // Squared displacement 900 < 1024: the window still sits at the origin.
    let win = *w.players_windows.find(1).unwrap();
    assert_eq!(win.hr_bl_x, -128);
    assert_eq!(win.hr_tr_x, 128);
}

#[test]
fn pass_recenters_window_at_threshold() {
    let mut w = World::new();
    w.on_connected_at(1, 0, 0, 0, 512, 256).unwrap();
    w.move_player(1, 35, 0, 0).unwrap();
    w.update_players_windows();
    // Squared displacement 1225 >= 1024: both boxes re-centered on (35, 0).
    let win = *w.players_windows.find(1).unwrap();
    assert_eq!(win.hr_bl_x, -93);
    assert_eq!(win.hr_tr_x, 163);
    assert_eq!(win.lr_bl_x, -221);
    assert_eq!(win.lr_tr_x, 291);
    assert_eq!(win.hr_bl_z, -128);
    assert_eq!(win.hr_tr_z, 128);
}

#[test]
fn pass_recenters_exactly_at_threshold() {
    let mut w = World::new();
    w.on_connected_at(1, 0, 0, 0, 512, 256).unwrap();
    // Squared displacement exactly 1024: the threshold is inclusive.
    w.move_player(1, 32, 0, 0).unwrap();
    w.update_players_windows();
    let win = *w.players_windows.find(1).unwrap();
    assert_eq!(win.hr_bl_x, -96);
    assert_eq!(win.hr_tr_x, 160);
}

#[test]
fn window_tracks_last_recompute_not_live_position() {
    let mut w = World::new();
    w.on_connected_at(1, 0, 0, 0, 512, 256).unwrap();
    w.move_player(1, 100, 0, 0).unwrap();
    w.update_players_windows();
    // Moving again without a pass leaves the window at the old center.
    w.move_player(1, 110, 0, 0).unwrap();
    let win = *w.players_windows.find(1).unwrap();
    assert_eq!(win.hr_bl_x, 100 - 128);
    assert_eq!(win.hr_tr_x, 100 + 128);
}

#[test]
fn repeated_pass_is_idempotent() {
    let mut w = World::new();
    w.on_connected_at(1, 0, 0, 0, 512, 256).unwrap();
    w.move_player(1, 500, 0, -500).unwrap();
    w.update_players_windows();
    let once = *w.players_windows.find(1).unwrap();
    w.update_players_windows();
    let twice = *w.players_windows.find(1).unwrap();
    assert_eq!(once, twice);
}

#[test]
fn odd_sizes_halve_toward_zero() {
    let w = PlayerWindow::new(1, 10, 10, 11, 5);
    assert_eq!(w.hr_bl_x, 8);
    assert_eq!(w.hr_tr_x, 12);
    assert_eq!(w.lr_bl_x, 5);
    assert_eq!(w.lr_tr_x, 15);
    // (5 / 8)² == 0: such a window recomputes on every pass.
    assert_eq!(w.recompute_distance, 0);
}

#[test]
fn zero_size_window_is_a_point() {
    let w = PlayerWindow::new(1, 7, -7, 0, 0);
    assert_eq!(w.hr_bl_x, 7);
    assert_eq!(w.hr_tr_x, 7);
    assert_eq!(w.lr_bl_z, -7);
    assert_eq!(w.lr_tr_z, -7);
    assert_eq!(w.recompute_distance, 0);
}

#[test]
fn extremes_of_the_coordinate_range_are_accepted() {
    let mut w = World::new();
    let lim = spatial_interest::COORD_LIMIT;
    w.on_connected_at(1, lim, lim, lim, lim, lim).unwrap();
    // The farthest possible drift: squared displacement 8e18 still fits.
    w.move_player(1, -lim, -lim, -lim).unwrap();
    w.update_players_windows();
    let win = *w.players_windows.find(1).unwrap();
    assert_eq!(win.hr_bl_x, -lim - lim / 2);
    assert_eq!(win.hr_tr_x, -lim + lim / 2);
    let p = *w.players_positions.find(1).unwrap();
    assert_eq!(p.x, -lim);
}

#[test]
fn pass_touches_only_drifted_observers() {
    let mut w = World::new();
    w.on_connected_at(1, 0, 0, 0, 512, 256).unwrap();
    w.on_connected_at(2, 0, 0, 0, 512, 256).unwrap();
    w.move_player(2, 200, 0, 0).unwrap();
    w.update_players_windows();
    let w1 = *w.players_windows.find(1).unwrap();
    let w2 = *w.players_windows.find(2).unwrap();
    assert_eq!(w1.hr_bl_x, -128);
    assert_eq!(w2.hr_bl_x, 72);
}
