use wemux::config::{start_config, Args, Command, LogLevel, ServiceConfig, SAMPLE_CONFIG};
use wemux::device::DeviceInfo;
use wemux::settings::TraySettings;
use wemux::tray::{EngineController, TrayConfig};

fn args(verbose: u8, quiet: bool) -> Args {
    Args { command: None, verbose, quiet, log: None }
}

#[test]
fn log_levels() {
    assert_eq!(args(0, false).log_level(), LogLevel::Info);
    assert_eq!(args(1, false).log_level(), LogLevel::Debug);
    assert_eq!(args(2, false).log_level(), LogLevel::Trace);
    assert_eq!(args(7, false).log_level(), LogLevel::Trace);
    assert_eq!(args(3, true).log_level(), LogLevel::Error);
}

#[test]
fn default_command_starts() {
    match Command::default() {
        Command::Start { devices, exclude, buffer, source } => {
            assert!(devices.is_none() && exclude.is_none() && source.is_none());
            assert_eq!(buffer, 50);
        }
        _ => panic!("expected Start"),
    }
    let c = start_config(Some(vec!["tv".to_string()]), None, 80, None);
    assert_eq!(c.buffer_ms, 80);
    assert_eq!(c.device_ids, Some(vec!["tv".to_string()]));
    assert!(!c.use_all_devices);
}

#[test]
fn service_config_to_engine_config() {
    let d = ServiceConfig::default();
    assert_eq!(d.buffer_ms, 50);
    assert_eq!(d.log_level, "info");
    let e = d.to_engine_config();
    assert!(e.device_ids.is_none() && e.exclude_ids.is_none() && e.source_device_id.is_none());
    let mut c = ServiceConfig::default();
    c.buffer_ms = 70;
    c.device_ids = vec!["a".to_string()];
    c.exclude_ids = vec!["b".to_string(), "c".to_string()];
    c.source_device_id = "src".to_string();
    let e = c.to_engine_config();
    assert_eq!(e.buffer_ms, 70);
    assert_eq!(e.device_ids, Some(vec!["a".to_string()]));
    assert_eq!(e.exclude_ids, Some(vec!["b".to_string(), "c".to_string()]));
    assert_eq!(e.source_device_id, Some("src".to_string()));
}

#[test]
fn sample_config_text() {
    let s = ServiceConfig::sample_config();
    assert_eq!(s, SAMPLE_CONFIG);
    assert!(s.contains("buffer_ms = 50"));
    assert!(s.contains("log_level = \"info\""));
}

#[test]
fn settings_default_enabled_and_toggle() {
    let mut s = TraySettings::new();
    assert!(s.is_device_enabled("x"));
    assert_eq!(EngineController::toggle_device_setting(&mut s, "x"), false);
    assert!(!s.is_device_enabled("x"));
    assert_eq!(s.device_name("x"), Some("x".to_string()));
    s.set_device_enabled("y", "Y name", true);
    assert_eq!(EngineController::toggle_device_setting(&mut s, "y"), false);
    assert_eq!(s.device_name("y"), Some("Y name".to_string()));
    assert_eq!(EngineController::toggle_device_setting(&mut s, "y"), true);
    assert!(s.is_device_enabled("y"));
}

#[test]
fn settings_update_from_devices() {
    let mut s = TraySettings::new();
    s.set_device_enabled("a", "Old A", false);
    s.update_from_devices(&[("a".to_string(), "New A".to_string()), ("b".to_string(), "B".to_string())]);
    assert!(!s.is_device_enabled("a"));
    assert_eq!(s.device_name("a"), Some("New A".to_string()));
    assert!(s.is_device_enabled("b"));
    assert_eq!(s.entries().len(), 2);
    assert_eq!(s.disabled_device_ids(), vec!["a".to_string()]);
    let cfg = EngineController::build_engine_config(&s);
    assert!(cfg.use_all_devices);
    assert_eq!(cfg.buffer_ms, 50);
    assert_eq!(cfg.paused_device_ids, Some(vec!["a".to_string()]));
    s.set_device_enabled("a", "New A", true);
    assert!(EngineController::build_engine_config(&s).paused_device_ids.is_none());
}

#[test]
fn statuses_while_stopped() {
    let mut s = TraySettings::new();
    s.set_device_enabled("b", "B", false);
    let default_id = Some("a".to_string());
    let devices = vec![
        DeviceInfo::new("a".to_string(), "A".to_string(), &default_id),
        DeviceInfo::new("b".to_string(), "B".to_string(), &default_id),
        DeviceInfo::new("c".to_string(), "C".to_string(), &default_id),
    ];
    let st = EngineController::stopped_statuses(&s, &devices);
    assert!(st[0].is_paused && st[0].is_system_default && !st[0].is_enabled);
    assert!(st[1].is_paused && !st[1].is_system_default);
    assert!(!st[2].is_paused && st[2].is_enabled);
}

#[test]
fn tray_defaults() {
    let t = TrayConfig::default();
    assert!(t.auto_start && t.show_notifications);
}
