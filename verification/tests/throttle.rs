use spatial_interest::world::World;

#[test]
fn position_tracks_latest_report() {
    let mut w = World::new();
    w.on_connected(1).unwrap();
    w.move_player(1, 10, 2, 30).unwrap();
    w.move_player(1, -5, 0, 7).unwrap();
    w.move_player(1, 42, 1, -9).unwrap();
    let p = *w.players_positions.find(1).unwrap();
    assert_eq!(p.x, 42);
    assert_eq!(p.y, 1);
    assert_eq!(p.z, -9);
}

#[test]
fn low_res_seeded_from_initial_position() {
    let mut w = World::new();
    w.on_connected_at(5, 77, 8, -3, 512, 256).unwrap();
    let lr = *w.players_positions_lr.find(5).unwrap();
    assert_eq!(lr.x, 77);
    assert_eq!(lr.y, 8);
    assert_eq!(lr.z, -3);
    assert_eq!(lr.update_count, 0);
}

#[test]
fn counter_counts_reports_below_threshold() {
    let mut w = World::new();
    w.on_connected(1).unwrap();
    for k in 1..10i64 {
        w.move_player(1, k, 0, 0).unwrap();
        let p = *w.players_positions.find(1).unwrap();
        assert_eq!(p.update_count as i64, k);
        // The low-tier mirror still holds the connect-time seed.
        let lr = *w.players_positions_lr.find(1).unwrap();
        assert_eq!(lr.x, 0);
        assert_eq!(lr.z, 0);
    }
}

#[test]
fn mirror_written_exactly_on_tenth_report() {
    let mut w = World::new();
    w.on_connected(1).unwrap();
    for k in 1..=10i64 {
        w.move_player(1, 100 + k, 0, 200 + k).unwrap();
    }
    let p = *w.players_positions.find(1).unwrap();
    assert_eq!(p.update_count, 0);
    assert_eq!(p.x, 110);
    assert_eq!(p.z, 210);
    let lr = *w.players_positions_lr.find(1).unwrap();
    // The mirror carries the tenth report's coordinates, nothing earlier.
    assert_eq!(lr.x, 110);
    assert_eq!(lr.z, 210);
    assert_eq!(lr.update_count, 0);
}

#[test]
fn mirror_untouched_between_cycles() {
    let mut w = World::new();
    w.on_connected(1).unwrap();
    for k in 1..=10i64 {
        w.move_player(1, k, 0, 0).unwrap();
    }
    // Three more reports into the next cycle: the mirror keeps the value
    // written at the end of the first cycle.
    for k in 11..=13i64 {
        w.move_player(1, k, 0, 0).unwrap();
    }
    let p = *w.players_positions.find(1).unwrap();
    assert_eq!(p.x, 13);
    assert_eq!(p.update_count, 3);
    let lr = *w.players_positions_lr.find(1).unwrap();
    assert_eq!(lr.x, 10);
}

#[test]
fn twentieth_report_writes_mirror_again() {
    let mut w = World::new();
    w.on_connected(1).unwrap();
    for k in 1..=20i64 {
        w.move_player(1, k, 0, 0).unwrap();
    }
    let p = *w.players_positions.find(1).unwrap();
    assert_eq!(p.update_count, 0);
    let lr = *w.players_positions_lr.find(1).unwrap();
    assert_eq!(lr.x, 20);
}

#[test]
fn reports_from_one_observer_leave_others_alone() {
    let mut w = World::new();
    w.on_connected(1).unwrap();
    w.on_connected(2).unwrap();
    w.move_player(1, 9, 9, 9).unwrap();
    let p2 = *w.players_positions.find(2).unwrap();
    assert_eq!(p2.x, 0);
    assert_eq!(p2.update_count, 0);
}
