use hyprsetting::SettingError;
use hyprsetting::setting_writer::DeviceSetting;
use hyprsetting::setting_writer::SettingObjectKey;
use hyprsetting::setting_writer::SettingWriter;
use hyprsetting::setting_writer::upsert_line;
use hyprsetting::setting_writer::HYPR_OVERRIDES_PATH;
use hyprsetting::setting_writer::HYPR_SETTING_PATH;

#[test]
fn upsert_appends_on_fresh_key() {
    let mut lines = vec!["# Hyprland configuration overrides".to_string()];
    upsert_line(&mut lines, "monitor=DP-3,2560x1440@155,0x0,1".to_string());
    assert_eq!(
        lines,
        vec![
            "# Hyprland configuration overrides".to_string(),
            "monitor=DP-3,2560x1440@155,0x0,1".to_string(),
        ]
    );
}

#[test]
fn upsert_twice_same_key_keeps_one_line_at_first_position() {
    let mut lines: Vec<String> = vec![];
    upsert_line(&mut lines, "monitor=DP-3,2560x1440@155,0x0,1".to_string());
    upsert_line(&mut lines, "monitor=DP-3,1920x1080@60,0x0,1".to_string());
    assert_eq!(lines, vec!["monitor=DP-3,1920x1080@60,0x0,1".to_string()]);
}

#[test]
fn upsert_replaces_in_place_keeping_position() {
    let mut lines = vec![
        "# header".to_string(),
        "input:kb_layout=us,fi".to_string(),
        "monitor=DP-3,2560x1440@155,0x0,1".to_string(),
    ];
    upsert_line(&mut lines, "input:kb_layout=de".to_string());
    assert_eq!(
        lines,
        vec![
            "# header".to_string(),
            "input:kb_layout=de".to_string(),
            "monitor=DP-3,2560x1440@155,0x0,1".to_string(),
        ]
    );
}

#[test]
fn upsert_distinguishes_monitor_keys() {
    let mut lines = vec!["monitor=DP-3,2560x1440@155,0x0,1".to_string()];
    upsert_line(&mut lines, "monitor=HDMI-A-1,1920x1080@60,2560x0,1".to_string());
    assert_eq!(lines.len(), 2);
    assert_eq!(lines[0], "monitor=DP-3,2560x1440@155,0x0,1");
    assert_eq!(lines[1], "monitor=HDMI-A-1,1920x1080@60,2560x0,1");
}

#[test]
fn upsert_unmatched_line_is_append_only() {
    let before = vec![
        "# header".to_string(),
        "monitor=DP-3,2560x1440@155,0x0,1".to_string(),
    ];
    let mut lines = before.clone();
    upsert_line(&mut lines, "bind = SUPER, Q, exec, kitty".to_string());
    assert_eq!(lines[..2], before[..]);
    assert_eq!(lines[2], "bind = SUPER, Q, exec, kitty");
    assert_eq!(lines.len(), 3);
}

#[test]
fn upsert_malformed_monitor_line_accumulates() {
    let mut lines = vec!["monitor=DP-3".to_string()];
    upsert_line(&mut lines, "monitor=DP-3".to_string());
    assert_eq!(lines.len(), 2);
}

#[test]
fn build_device_setting_produces_block() {
    let writer = SettingWriter::build(DeviceSetting {
        key: SettingObjectKey::Device,
        device_name: "ducky-one-2".to_string(),
        kb_layout: "fi".to_string(),
    })
    .unwrap();
    assert_eq!(
        writer.into_line(),
        "device { \n    name = ducky-one-2\n    kb_layout = fi\n }"
    );
}

#[test]
fn build_rejects_single_line_objects() {
    let result = SettingWriter::build(DeviceSetting {
        key: SettingObjectKey::SingleLine,
        device_name: "kb".to_string(),
        kb_layout: "us".to_string(),
    });
    match result {
        Err(e) => assert_eq!(e, SettingError::MalformedLine),
        Ok(_) => panic!("expected an error for a single-line setting object"),
    }
}

#[test]
fn build_single_concatenates_prefix_and_value() {
    let writer = SettingWriter::build_single("monitor=", "DP-3,2560x1440@155,0x0,1").unwrap();
    assert_eq!(writer.into_line(), "monitor=DP-3,2560x1440@155,0x0,1");
}

#[test]
fn apply_merges_built_line() {
    let mut lines = vec!["input:sensitivity=0.5".to_string()];
    let writer = SettingWriter::build_single("input:sensitivity=", "0.25").unwrap();
    writer.apply(&mut lines);
    assert_eq!(lines, vec!["input:sensitivity=0.25".to_string()]);
}

#[test]
fn paths_are_home_relative() {
    assert_eq!(HYPR_SETTING_PATH, ".config/hypr/hyprland.conf");
    assert_eq!(HYPR_OVERRIDES_PATH, ".config/hypr/conf-overrides.conf");
}
