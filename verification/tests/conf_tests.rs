use hyprsetting::SettingError;
use hyprsetting::conf::BootstrapAction;
use hyprsetting::conf::create_overrides_plan;
use hyprsetting::conf::monitor_override;
use hyprsetting::conf::monitor_setting_value;
use hyprsetting::monitor::MonitorInfo;
use hyprsetting::monitor::MonitorMode;
use hyprsetting::numfmt::refresh_to_dec;
use hyprsetting::numfmt::refresh_label;

#[test]
fn monitor_override_formats_auto_position() {
    let line = monitor_override(
        "DP-3".to_string(),
        MonitorMode { resolution: "2560x1440".to_string(), refresh_mhz: 155_000 },
    );
    assert_eq!(line, "monitor=DP-3,2560x1440@155,auto,1");
}

#[test]
fn refresh_rendering_drops_trailing_zeros() {
    assert_eq!(refresh_to_dec(155_000), "155");
    assert_eq!(refresh_to_dec(59_990), "59.99");
    assert_eq!(refresh_to_dec(60_001), "60.001");
    assert_eq!(refresh_to_dec(74_900), "74.9");
    assert_eq!(refresh_to_dec(0), "0");
}

#[test]
fn refresh_labels_carry_two_decimals() {
    assert_eq!(refresh_label(60_000), "60.00Hz");
    assert_eq!(refresh_label(59_990), "59.99Hz");
    assert_eq!(refresh_label(155_000), "155.00Hz");
    assert_eq!(refresh_label(74_986), "74.99Hz");
}

#[test]
fn monitor_setting_value_formats_negative_positions() {
    let m = MonitorInfo {
        name: "DP-1".to_string(),
        id: 1,
        position: (-1920, 0),
        current_resolution: "1920x1080".to_string(),
        current_refresh_mhz: 60_000,
        available_modes: vec![],
    };
    assert_eq!(monitor_setting_value(&m), "DP-1,1920x1080@60,-1920x0,1");
}

#[test]
fn bootstrap_fails_without_base_config() {
    match create_overrides_plan(false, false) {
        Err(e) => assert_eq!(e, SettingError::NotConfigured),
        Ok(_) => panic!("expected NotConfigured without a base file"),
    }
    match create_overrides_plan(false, true) {
        Err(e) => assert_eq!(e, SettingError::NotConfigured),
        Ok(_) => panic!("expected NotConfigured without a base file"),
    }
}

#[test]
fn bootstrap_creates_overlay_once() {
    match create_overrides_plan(true, false) {
        Ok(BootstrapAction::CreateOverlay { overlay_contents, base_append }) => {
            assert_eq!(overlay_contents, "# Hyprland configuration overrides\n");
            assert_eq!(
                base_append,
                "\n# Include overrides configuration\nsource = ~/.config/hypr/conf-overrides.conf\n"
            );
        },
        _ => panic!("expected the overlay to be created"),
    }
}

#[test]
fn bootstrap_reruns_as_no_op() {
    match create_overrides_plan(true, true) {
        Ok(BootstrapAction::Nothing) => {},
        _ => panic!("expected a no-op once the overlay exists"),
    }
}
