use niri_capture::config::{config_path, BevyCaptureConfig, NiriCapturePlugin};
use niri_capture::pipeline::{CaptureStats, NiriCaptureState, NiriScreenDisplay};

#[test]
fn test_default_config() {
    let config = BevyCaptureConfig::default();
    assert_eq!(config.capture_fps_milli, 60_000);
    assert!(config.prefer_dmabuf);
    assert!(config.damage_tracking);
}

#[test]
fn test_config_validation() {
    let mut config = BevyCaptureConfig::default();
    assert!(config.validate().is_ok());

    config.capture_fps_milli = 0;
    assert!(config.validate().is_err());

    config.capture_fps_milli = 60_000;
    config.max_memory_usage = 1500;
    assert!(config.validate().is_err());
}

#[test]
fn test_api_merge() {
    let mut config = BevyCaptureConfig::default();
    let api_config = NiriCapturePlugin {
        outputs: vec!["DP-1".to_string()],
        capture_fps_milli: 120_000,
        prefer_dmabuf: false,
    };

    config.merge_with_api(&api_config);
    assert_eq!(config.capture_fps_milli, 120_000);
    assert!(!config.prefer_dmabuf);
    assert_eq!(config.outputs, vec!["DP-1"]);
}

#[test]
fn test_plugin_default() {
    let plugin = NiriCapturePlugin::default();
    assert_eq!(plugin.capture_fps_milli, 60_000);
    assert!(plugin.prefer_dmabuf);
    assert!(plugin.outputs.is_empty());
}

#[test]
fn test_capture_state_creation() {
    let plugin = NiriCapturePlugin::default();
    let state = NiriCaptureState::new(&plugin);

    assert_eq!(state.target_frame_time, 1_000_000_000 / 60_000);
    assert_eq!(state.performance_stats.frames_captured, 0);
}

#[test]
fn test_multi_output_setup() {
    let plugin = NiriCapturePlugin {
        outputs: vec!["DP-1".to_string(), "HDMI-A-1".to_string()],
        capture_fps_milli: 60_000,
        prefer_dmabuf: true,
    };

    assert_eq!(plugin.outputs.len(), 2);
    assert_eq!(plugin.capture_fps_milli, 60_000);
    assert!(plugin.prefer_dmabuf);
}

#[test]
fn test_capture_state_stats() {
    let plugin = NiriCapturePlugin::default();
    let state = NiriCaptureState::new(&plugin);

    assert_eq!(state.performance_stats.frames_captured, 0);
    assert_eq!(state.performance_stats.frames_dropped, 0);
    assert_eq!(state.target_frame_time, 1_000_000_000 / 60_000);
}

#[test]
fn integration_tests_test_config_validation() {
    let config = BevyCaptureConfig::default();
    assert!(config.validate().is_ok());

    let mut invalid_config = config.clone();
    invalid_config.capture_fps_milli = 0;
    assert!(invalid_config.validate().is_err());
}

#[test]
fn validation_error_messages_are_exact() {
    let mut config = BevyCaptureConfig::default();
    config.capture_fps_milli = 240_001;
    assert_eq!(
        config.validate().unwrap_err(),
        "capture_fps must be between 0 and 240"
    );
    config.capture_fps_milli = 240_000;
    config.max_memory_usage = 0;
    assert_eq!(
        config.validate().unwrap_err(),
        "max_memory_usage must be between 0 and 1"
    );
}

#[test]
fn merge_without_overrides_keeps_configuration() {
    let mut config = BevyCaptureConfig::default();
    config.outputs = vec!["DP-1".to_string()];
    let api_config = NiriCapturePlugin {
        outputs: vec![],
        capture_fps_milli: 0,
        prefer_dmabuf: true,
    };
    config.merge_with_api(&api_config);
    assert_eq!(config.capture_fps_milli, 60_000);
    assert_eq!(config.outputs, vec!["DP-1"]);
}

#[test]
fn config_path_prefers_explicit_path() {
    let (load, watch, create) = config_path(Some("/etc/niri/other.kdl".to_string()));
    assert_eq!(load, "/etc/niri/other.kdl");
    assert_eq!(watch, "/etc/niri/other.kdl");
    assert!(!create);

    let (load, watch, create) = config_path(None);
    assert_eq!(load, "config.kdl");
    assert_eq!(watch, "config.kdl");
    assert!(!create);
}

#[test]
fn test_screen_display_component() {
    let display = NiriScreenDisplay {
        output_name: "test-output".to_string(),
        auto_resize: true,
        damage_tracking: true,
    };

    assert_eq!(display.output_name, "test-output");
    assert!(display.auto_resize);
    assert!(display.damage_tracking);
}

#[test]
fn frame_interval_accounting_is_exact() {
    let mut stats = CaptureStats::default();
    stats.note_frame_interval(20_000);
    // One slow tick: a dropped frame, and the average moves one step.
    assert_eq!(stats.frames_dropped, 1);
    assert_eq!(stats.average_latency, (0 * 9 + 20_000) / 10);
    stats.note_frame_interval(10_000);
    assert_eq!(stats.frames_dropped, 1);
    assert_eq!(stats.average_latency, (2_000 * 9 + 10_000) / 10);
}
