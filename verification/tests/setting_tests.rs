use hyprsetting::setting::LineCategory;
use hyprsetting::setting::SettingLine;
use hyprsetting::setting::get_setting_handlers;
use hyprsetting::setting::match_category;

#[test]
fn extract_key_monitor_with_whitespace() {
    let key = LineCategory::DisplayMode
        .extract_key("  monitor=HDMI-A-1,1920x1080@60,1920x0,1  ");
    assert_eq!(key, Some("HDMI-A-1".to_string()));
}

#[test]
fn extract_key_comment_line_matches_no_category() {
    for handler in get_setting_handlers() {
        assert_eq!(handler.extract_key("# comment line"), None);
    }
}

#[test]
fn extract_key_non_matching_line_matches_no_category() {
    for handler in get_setting_handlers() {
        assert_eq!(handler.extract_key("bind = SUPER, Q, exec, kitty"), None);
        assert_eq!(handler.extract_key(""), None);
    }
}

#[test]
fn extract_key_monitor_without_comma_has_no_key() {
    assert_eq!(LineCategory::DisplayMode.extract_key("monitor=DP-3"), None);
}

#[test]
fn extract_key_fixed_sentinels() {
    assert_eq!(
        LineCategory::KeyboardLayout.extract_key("input:kb_layout=us,fi"),
        Some("kb_layout".to_string())
    );
    assert_eq!(
        LineCategory::PointerSensitivity.extract_key("  input:sensitivity=0.25"),
        Some("sensitivity".to_string())
    );
    assert_eq!(
        LineCategory::PointerNoAccel.extract_key("input:force_no_accel=1"),
        Some("force_no_accel".to_string())
    );
}

#[test]
fn extract_key_wrong_category_rejects() {
    assert_eq!(
        LineCategory::KeyboardLayout.extract_key("monitor=DP-3,2560x1440@155,0x0,1"),
        None
    );
    assert_eq!(
        LineCategory::DisplayMode.extract_key("input:kb_layout=us"),
        None
    );
}

#[test]
fn handlers_are_listed_in_priority_order() {
    let handlers = get_setting_handlers();
    assert_eq!(
        handlers,
        vec![
            LineCategory::DisplayMode,
            LineCategory::KeyboardLayout,
            LineCategory::PointerSensitivity,
            LineCategory::PointerNoAccel,
        ]
    );
}

#[test]
fn match_category_takes_first_match() {
    assert_eq!(
        match_category("monitor=DP-3,2560x1440@155,0x0,1"),
        Some(LineCategory::DisplayMode)
    );
    assert_eq!(
        match_category("input:kb_layout=de"),
        Some(LineCategory::KeyboardLayout)
    );
    assert_eq!(
        match_category("input:sensitivity=0.25"),
        Some(LineCategory::PointerSensitivity)
    );
    assert_eq!(
        match_category("input:force_no_accel=1"),
        Some(LineCategory::PointerNoAccel)
    );
    assert_eq!(match_category("# comment line"), None);
    assert_eq!(match_category("monitor=DP-3"), None);
}

#[test]
fn prefixes_are_stable() {
    assert_eq!(LineCategory::DisplayMode.prefix(), "monitor=");
    assert_eq!(LineCategory::KeyboardLayout.prefix(), "input:kb_layout=");
    assert_eq!(LineCategory::PointerSensitivity.prefix(), "input:sensitivity=");
    assert_eq!(LineCategory::PointerNoAccel.prefix(), "input:force_no_accel=");
    assert!(LineCategory::DisplayMode.should_replace());
}
