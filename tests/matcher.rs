use fps_unlock::matcher::{find_matching_value, matches_pattern};
use fps_unlock::limits::{capped_fps, hi3_limits};

#[test]
fn exact_and_prefix_match() {
    assert!(matches_pattern("abc", "abc"));
    assert!(matches_pattern("graphicssettings_model_h2986158309", "graphicssettings_model"));
    assert!(!matches_pattern("abc", "abcd"));
}

#[test]
fn numbered_variant_match() {
    assert!(matches_pattern("x_abc_h123", "abc_h"));
    assert!(matches_pattern("x_abc_h", "abc_h"));
    assert!(!matches_pattern("x_abc_h12a", "abc_h"));
    assert!(!matches_pattern("x_abc_q123", "abc_h"));
}

#[test]
fn containment_needs_long_pattern() {
    assert!(matches_pattern("my_personalgraphics", "personalgraphics"));
    assert!(!matches_pattern("xxabcde", "abcde"));
    assert!(matches_pattern("xxabcdef", "abcdef"));
}

#[test]
fn matching_value_ignores_case() {
    let available = vec!["Other".to_string(), "GRAPHICSSETTINGS_MODEL_h2986158309".to_string(), "GraphicsSettings_Model".to_string()];
    assert_eq!(find_matching_value(&available, "GraphicsSettings_Model"), Some("GRAPHICSSETTINGS_MODEL_h2986158309".to_string()));
    assert_eq!(find_matching_value(&available, "PersonalGraphicsSettingV2"), None);
    assert_eq!(find_matching_value(&[], "x"), None);
}

#[test]
fn frame_rate_limits() {
    assert_eq!(capped_fps(144), 120);
    assert_eq!(capped_fps(120), 120);
    assert_eq!(capped_fps(90), 90);
    assert_eq!(hi3_limits(300), (60, 600));
    assert_eq!(hi3_limits(240), (240, 240));
}
