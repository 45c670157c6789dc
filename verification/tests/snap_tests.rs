use hyprsetting::conf::monitor_setting_value;
use hyprsetting::layout::LayoutSession;
use hyprsetting::layout::MonitorBox;
use hyprsetting::monitor::MonitorInfo;
use hyprsetting::setting_writer::SettingWriter;
use hyprsetting::snap::find_closest;
use hyprsetting::snap::snap;

fn monitor(name: &str, x: i32, y: i32, resolution: &str, refresh_mhz: u32) -> MonitorInfo {
    MonitorInfo {
        name: name.to_string(),
        id: 0,
        position: (x, y),
        current_resolution: resolution.to_string(),
        current_refresh_mhz: refresh_mhz,
        available_modes: vec![],
    }
}

fn boxed(name: &str, vx: i64, vy: i64, vw: i64, vh: i64) -> MonitorBox {
    MonitorBox {
        monitor: monitor(name, 0, 0, "2560x1440", 155_000),
        visual_x: vx,
        visual_y: vy,
        visual_width: vw,
        visual_height: vh,
    }
}

#[test]
fn release_below_left_snaps_and_commits_exactly() {
    // Two displays: the primary at the origin, the secondary directly below.
    // The secondary is dragged a few pixels up and to the left, then
    // released: the snap aligns its top edge to the primary's bottom edge
    // and its left edge to the primary's left edge, and the committed line
    // carries the exact real position.
    let mut session = LayoutSession::new(vec![
        monitor("DP-1", 0, 0, "2560x1440", 155_000),
        monitor("DP-2", 0, 1440, "2560x1440", 155_000),
    ]);
    assert!(session.begin_drag(1));
    // 7 canvas pixels left, 5 down: within the 20-pixel threshold.
    session.drag_move(-7_000, 5_000);
    let committed = session.end_drag();
    assert_eq!(committed, Some((0, 1440)));
    assert_eq!(session.monitors[1].visual_x, session.monitors[0].visual_x);
    assert_eq!(
        session.monitors[1].visual_y,
        session.monitors[0].visual_y + session.monitors[0].visual_height
    );
    let value = monitor_setting_value(&session.monitors[1].monitor);
    assert_eq!(value, "DP-2,2560x1440@155,0x1440,1");
    let line = SettingWriter::build_single("monitor=", value.as_str())
        .unwrap()
        .into_line();
    assert_eq!(line, "monitor=DP-2,2560x1440@155,0x1440,1");
}

#[test]
fn snapping_an_already_snapped_box_moves_nothing() {
    let primary = boxed("DP-1", 234_000, 262_000, 192_000, 108_000);
    // Exactly below-left aligned: top edge on the primary's bottom edge.
    let dragged = boxed("DP-2", 234_000, 370_000, 192_000, 108_000);
    let r = find_closest(&dragged, &vec![primary]);
    assert!(r == Some((0, 0)) || r == None);
}

#[test]
fn far_away_boxes_do_not_snap() {
    let a = boxed("DP-1", 0, 0, 192_000, 108_000);
    let b = boxed("DP-2", 500_000, 500_000, 192_000, 108_000);
    assert_eq!(find_closest(&b, &vec![a]), None);
}

#[test]
fn closest_edge_wins_within_threshold() {
    let a = boxed("DP-1", 0, 0, 192_000, 108_000);
    // 5 pixels below the bottom edge, 60 pixels off on the left edge: only
    // the top-to-bottom candidate is in range, no alignment fires.
    let b = boxed("DP-2", 60_000, 113_000, 192_000, 108_000);
    assert_eq!(find_closest(&b, &vec![a]), Some((0, -5_000)));
}

#[test]
fn snap_with_an_out_of_range_index_changes_nothing() {
    let mut boxes = vec![boxed("DP-1", 0, 0, 192_000, 108_000)];
    snap(&mut boxes, 4);
    assert_eq!(boxes[0].visual_x, 0);
    assert_eq!(boxes[0].visual_y, 0);
}

#[test]
fn snap_applies_the_correction_to_the_dragged_box() {
    let mut boxes = vec![
        boxed("DP-1", 0, 0, 192_000, 108_000),
        boxed("DP-2", 7_000, 113_000, 192_000, 108_000),
    ];
    snap(&mut boxes, 1);
    assert_eq!(boxes[1].visual_x, 0);
    assert_eq!(boxes[1].visual_y, 108_000);
    assert_eq!(boxes[0].visual_x, 0);
    assert_eq!(boxes[0].visual_y, 0);
}
