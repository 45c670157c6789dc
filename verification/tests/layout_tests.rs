use hyprsetting::layout::DragState;
use hyprsetting::layout::LayoutSession;
use hyprsetting::monitor::MonitorInfo;
use hyprsetting::monitor::MonitorMode;
use hyprsetting::monitor::parse_resolution;
use hyprsetting::monitor::position_of_str;
use hyprsetting::monitor::position_of_u32;
use hyprsetting::monitor::refresh_rates_for;
use hyprsetting::monitor::unique_resolutions;

fn monitor(name: &str, x: i32, y: i32, resolution: &str, refresh_mhz: u32) -> MonitorInfo {
    MonitorInfo {
        name: name.to_string(),
        id: 0,
        position: (x, y),
        current_resolution: resolution.to_string(),
        current_refresh_mhz: refresh_mhz,
        available_modes: vec![],
    }
}

#[test]
fn parse_resolution_reads_width_and_height() {
    assert_eq!(parse_resolution("2560x1440"), (2560, 1440));
    assert_eq!(parse_resolution("800x600"), (800, 600));
}

#[test]
fn parse_resolution_falls_back_on_garbage() {
    assert_eq!(parse_resolution("garbage"), (1920, 1080));
    assert_eq!(parse_resolution(""), (1920, 1080));
    assert_eq!(parse_resolution("axb"), (1920, 1080));
    assert_eq!(parse_resolution("x"), (1920, 1080));
    assert_eq!(parse_resolution("1024x"), (1024, 1080));
    assert_eq!(parse_resolution("-5x7"), (-5, 7));
}

#[test]
fn empty_layout_is_degenerate() {
    let session = LayoutSession::new(vec![]);
    assert_eq!(session.monitors.len(), 0);
    assert_eq!(session.canvas_width_sub, 600_000);
    assert_eq!(session.canvas_height_sub, 400_000);
    assert_eq!(session.scale_sub, 1000);
    assert_eq!(session.offset_x_sub, 0);
    assert_eq!(session.offset_y_sub, 0);
}

#[test]
fn two_monitor_layout_is_scaled_and_centered() {
    let session = LayoutSession::new(vec![
        monitor("DP-1", 0, 0, "2560x1440", 155_000),
        monitor("DP-2", 0, 1440, "2560x1440", 155_000),
    ]);
    assert_eq!(session.scale_sub, 75);
    assert_eq!(session.canvas_width_sub, 660_000);
    assert_eq!(session.canvas_height_sub, 740_000);
    assert_eq!(session.offset_x_sub, 234_000);
    assert_eq!(session.offset_y_sub, 262_000);
    assert_eq!(session.monitors[0].visual_x, 234_000);
    assert_eq!(session.monitors[0].visual_y, 262_000);
    assert_eq!(session.monitors[0].visual_width, 192_000);
    assert_eq!(session.monitors[0].visual_height, 108_000);
    assert_eq!(session.monitors[1].visual_y, 370_000);
}

#[test]
fn coordinate_round_trip_on_sample_points() {
    let session = LayoutSession::new(vec![
        monitor("DP-1", 0, 0, "2560x1440", 155_000),
        monitor("DP-2", -1920, -200, "1920x1080", 60_000),
    ]);
    for &(px, py) in &[(0i64, 0i64), (100, -50), (-1920, -200), (2559, 1439)] {
        let vx = px * session.scale_sub + session.offset_x_sub;
        let vy = py * session.scale_sub + session.offset_y_sub;
        assert_eq!(session.calculate_actual_position(vx, vy), (px, py));
    }
}

#[test]
fn begin_drag_refuses_the_primary_monitor() {
    let mut session = LayoutSession::new(vec![
        monitor("DP-1", 0, 0, "2560x1440", 155_000),
        monitor("DP-2", 2560, 0, "2560x1440", 155_000),
    ]);
    assert!(!session.begin_drag(0));
    assert_eq!(session.drag, DragState::Idle);
    assert!(!session.begin_drag(7));
    assert!(session.begin_drag(1));
    assert_eq!(session.drag, DragState::Dragging { index: 1 });
}

#[test]
fn drag_move_translates_only_the_dragged_box() {
    let mut session = LayoutSession::new(vec![
        monitor("DP-1", 0, 0, "2560x1440", 155_000),
        monitor("DP-2", 2560, 0, "2560x1440", 155_000),
    ]);
    let primary_before = (session.monitors[0].visual_x, session.monitors[0].visual_y);
    let dragged_before = (session.monitors[1].visual_x, session.monitors[1].visual_y);
    session.begin_drag(1);
    session.drag_move(1500, -2500);
    assert_eq!(
        (session.monitors[0].visual_x, session.monitors[0].visual_y),
        primary_before
    );
    assert_eq!(session.monitors[1].visual_x, dragged_before.0 + 1500);
    assert_eq!(session.monitors[1].visual_y, dragged_before.1 - 2500);
}

#[test]
fn drag_move_without_a_drag_is_a_no_op() {
    let mut session = LayoutSession::new(vec![
        monitor("DP-1", 0, 0, "2560x1440", 155_000),
        monitor("DP-2", 2560, 0, "2560x1440", 155_000),
    ]);
    let before = (session.monitors[1].visual_x, session.monitors[1].visual_y);
    session.drag_move(10_000, 10_000);
    assert_eq!(
        (session.monitors[1].visual_x, session.monitors[1].visual_y),
        before
    );
}

#[test]
fn cancel_drag_commits_nothing() {
    let mut session = LayoutSession::new(vec![
        monitor("DP-1", 0, 0, "2560x1440", 155_000),
        monitor("DP-2", 2560, 0, "2560x1440", 155_000),
    ]);
    session.begin_drag(1);
    session.drag_move(3000, 3000);
    session.cancel_drag();
    assert_eq!(session.drag, DragState::Idle);
    assert_eq!(session.monitors[1].monitor.position, (2560, 0));
    assert_eq!(session.end_drag(), None);
}

#[test]
fn unique_resolutions_are_sorted_and_deduplicated() {
    let modes = vec![
        MonitorMode { resolution: "1920x1080".to_string(), refresh_mhz: 60_000 },
        MonitorMode { resolution: "2560x1440".to_string(), refresh_mhz: 155_000 },
        MonitorMode { resolution: "1920x1080".to_string(), refresh_mhz: 144_000 },
        MonitorMode { resolution: "1280x720".to_string(), refresh_mhz: 60_000 },
    ];
    let resolutions = unique_resolutions(&modes);
    assert_eq!(
        resolutions,
        vec![
            "1280x720".to_string(),
            "1920x1080".to_string(),
            "2560x1440".to_string(),
        ]
    );
}

#[test]
fn refresh_rates_follow_the_selected_resolution() {
    let modes = vec![
        MonitorMode { resolution: "1920x1080".to_string(), refresh_mhz: 60_000 },
        MonitorMode { resolution: "2560x1440".to_string(), refresh_mhz: 155_000 },
        MonitorMode { resolution: "1920x1080".to_string(), refresh_mhz: 144_000 },
    ];
    assert_eq!(refresh_rates_for(&modes, "1920x1080"), vec![60_000, 144_000]);
    assert_eq!(refresh_rates_for(&modes, "2560x1440"), vec![155_000]);
    assert_eq!(refresh_rates_for(&modes, "640x480"), Vec::<u32>::new());
}

#[test]
fn positions_find_the_first_match() {
    let list = vec!["a".to_string(), "b".to_string(), "b".to_string()];
    assert_eq!(position_of_str(&list, "b"), Some(1));
    assert_eq!(position_of_str(&list, "c"), None);
    assert_eq!(position_of_u32(&vec![60_000, 144_000], 144_000), Some(1));
    assert_eq!(position_of_u32(&vec![60_000], 75_000), None);
}
