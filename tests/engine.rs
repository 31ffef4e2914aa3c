use wemux::device::{DeviceEvent, DeviceInfo};
use wemux::engine::{AudioEngine, EngineConfig, EngineState, MonitorAction};
use wemux::error::WemuxError;

fn dev(id: &str, name: &str, default_id: &Option<String>) -> DeviceInfo {
    DeviceInfo::new(id.to_string(), name.to_string(), default_id)
}

fn all_config() -> EngineConfig {
    let mut c = EngineConfig::default();
    c.use_all_devices = true;
    c
}

fn three_devices(default_id: &Option<String>) -> Vec<DeviceInfo> {
    vec![
        dev("id-a", "Speakers", default_id),
        dev("id-b", "TV (HDMI)", default_id),
        dev("id-c", "Monitor (NVIDIA High Definition Audio)", default_id),
    ]
}

fn default_changed(id: &str) -> DeviceEvent {
    DeviceEvent::DefaultChanged { data_flow: 0, role: 0, device_id: id.to_string() }
}

#[test]
fn default_config_values() {
    let c = EngineConfig::default();
    assert_eq!(c.buffer_ms, 50);
    assert!(c.device_ids.is_none());
    assert!(c.exclude_ids.is_none());
    assert!(c.source_device_id.is_none());
    assert!(c.paused_device_ids.is_none());
    assert!(!c.use_all_devices);
}

#[test]
fn target_selection_rules() {
    let none: Option<String> = None;
    let devices = three_devices(&none);

    let hdmi_only = AudioEngine::new(EngineConfig::default());
    let t = hdmi_only.get_target_devices(&devices);
    let ids: Vec<&str> = t.iter().map(|d| d.id.as_str()).collect();
    assert_eq!(ids, vec!["id-b", "id-c"]);

    let all = AudioEngine::new(all_config());
    assert_eq!(all.get_target_devices(&devices).len(), 3);

    let mut allow = all_config();
    allow.device_ids = Some(vec!["Speak".to_string(), "id-c".to_string()]);
    allow.exclude_ids = Some(vec!["Monitor".to_string()]);
    let e = AudioEngine::new(allow);
    let t = e.get_target_devices(&devices);
    let ids: Vec<&str> = t.iter().map(|d| d.id.as_str()).collect();
    assert_eq!(ids, vec!["id-a"]);
}

#[test]
fn allow_list_keeps_the_display_filter() {
    let none: Option<String> = None;
    let devices = three_devices(&none);
    let mut allow = EngineConfig::default();
    allow.device_ids = Some(vec!["Speak".to_string(), "TV".to_string()]);
    let e = AudioEngine::new(allow);
    let t = e.get_target_devices(&devices);
    let ids: Vec<&str> = t.iter().map(|d| d.id.as_str()).collect();
    assert_eq!(ids, vec!["id-b"]);
}

#[test]
fn repeated_ids_are_adopted_once() {
    let default_id = Some("id-b".to_string());
    let devices = vec![
        dev("id-a", "Speakers", &default_id),
        dev("id-b", "TV", &default_id),
        dev("id-a", "Speakers again", &default_id),
        dev("id-b", "TV again", &default_id),
    ];
    let mut engine = AudioEngine::new(all_config());
    engine.start(&devices, default_id).unwrap();
    let s = engine.get_device_statuses();
    assert_eq!(s.len(), 2);
    assert_eq!(s[0].name, "Speakers");
    assert_eq!(s[1].name, "TV");
    assert_eq!(s.iter().filter(|st| st.is_system_default).count(), 1);
}

#[test]
fn start_twice_is_refused_without_change() {
    let default_id = Some("id-a".to_string());
    let devices = three_devices(&default_id);
    let mut engine = AudioEngine::new(all_config());
    assert_eq!(engine.state(), EngineState::Uninitialized);
    assert!(engine.start(&devices, default_id.clone()).is_ok());
    assert!(engine.is_running());
    let before = engine.get_device_statuses();
    let second = engine.start(&devices, Some("id-b".to_string()));
    assert!(matches!(second, Err(WemuxError::AlreadyRunning)));
    assert_eq!(engine.state(), EngineState::Running);
    let after = engine.get_device_statuses();
    assert_eq!(before.len(), after.len());
    for (b, a) in before.iter().zip(after.iter()) {
        assert_eq!(b.id, a.id);
        assert_eq!(b.is_paused, a.is_paused);
        assert_eq!(b.is_system_default, a.is_system_default);
    }
    assert!(engine.is_device_default("id-a"));
}

#[test]
fn start_fails_without_targets() {
    let none: Option<String> = None;
    let devices = vec![dev("id-a", "Speakers", &none)];
    let mut engine = AudioEngine::new(EngineConfig::default());
    assert!(matches!(engine.start(&devices, None), Err(WemuxError::NoHdmiDevices)));
    assert_eq!(engine.state(), EngineState::Uninitialized);
    assert!(engine.get_device_statuses().is_empty());
}

#[test]
fn start_then_stop_and_stop_again() {
    let none: Option<String> = None;
    let devices = three_devices(&none);
    let mut engine = AudioEngine::new(all_config());
    assert!(!engine.begin_stop());
    assert_eq!(engine.state(), EngineState::Uninitialized);
    engine.start(&devices, None).unwrap();
    assert!(engine.begin_stop());
    assert_eq!(engine.state(), EngineState::ShuttingDown);
    engine.finish_stop();
    assert_eq!(engine.state(), EngineState::Stopped);
    assert!(engine.get_device_statuses().is_empty());
    assert!(!engine.begin_stop());
    assert_eq!(engine.state(), EngineState::Stopped);
    assert!(engine.start(&devices, None).is_ok());
    assert!(engine.is_running());
}

#[test]
fn initial_pause_flags() {
    let default_id = Some("id-b".to_string());
    let devices = three_devices(&default_id);
    let mut config = all_config();
    config.paused_device_ids = Some(vec!["id-c".to_string()]);
    let mut engine = AudioEngine::new(config);
    assert!(engine.should_device_start_paused("id-c"));
    assert!(!engine.should_device_start_paused("id-a"));
    engine.start(&devices, default_id).unwrap();
    let s = engine.get_device_statuses();
    assert_eq!(s.len(), 3);
    assert_eq!(s[0].id, "id-a");
    assert!(!s[0].is_paused && !s[0].is_system_default && s[0].is_enabled);
    assert!(s[1].is_paused && s[1].is_system_default);
    assert!(s[2].is_paused && !s[2].is_system_default);
    assert_eq!(s[2].name, "Monitor (NVIDIA High Definition Audio)");
}

#[test]
fn default_change_pauses_the_new_default() {
    let default_id = Some("id-a".to_string());
    let devices = three_devices(&default_id);
    let mut engine = AudioEngine::new(all_config());
    engine.start(&devices, Some("elsewhere".to_string())).unwrap();
    assert_eq!(engine.is_renderer_paused("id-b"), Some(false));
    let action = engine.handle_device_event(&default_changed("id-b"));
    assert_eq!(
        action,
        MonitorAction { reinitialize_capture: true, rebind_volume: true, notify_listeners: true }
    );
    assert_eq!(engine.is_renderer_paused("id-b"), Some(true));
    assert_eq!(engine.is_renderer_paused("id-a"), Some(false));
    assert_eq!(engine.is_renderer_paused("id-c"), Some(false));
    assert!(engine.is_device_default("id-b"));
    assert!(!engine.is_device_default("id-a"));
}

#[test]
fn other_events_change_nothing() {
    let none: Option<String> = None;
    let devices = three_devices(&none);
    let mut engine = AudioEngine::new(all_config());
    engine.start(&devices, None).unwrap();
    let quiet = MonitorAction { reinitialize_capture: false, rebind_volume: false, notify_listeners: false };
    assert_eq!(engine.handle_device_event(&DeviceEvent::Added("id-b".to_string())), quiet);
    assert_eq!(engine.handle_device_event(&DeviceEvent::Removed("id-b".to_string())), quiet);
    let capture_flow = DeviceEvent::DefaultChanged { data_flow: 1, role: 0, device_id: "id-b".to_string() };
    assert_eq!(engine.handle_device_event(&capture_flow), quiet);
    assert_eq!(engine.is_renderer_paused("id-b"), Some(false));
    assert!(!engine.is_device_default("id-b"));
}

#[test]
fn pause_and_resume_by_id() {
    let none: Option<String> = None;
    let devices = three_devices(&none);
    let mut engine = AudioEngine::new(all_config());
    engine.start(&devices, None).unwrap();
    assert!(engine.pause_renderer("id-c").is_ok());
    assert_eq!(engine.is_renderer_paused("id-c"), Some(true));
    assert!(engine.resume_renderer("id-c").is_ok());
    assert_eq!(engine.is_renderer_paused("id-c"), Some(false));
    match engine.pause_renderer("missing") {
        Err(WemuxError::DeviceNotFound(id)) => assert_eq!(id, "missing"),
        _ => panic!("expected DeviceNotFound"),
    }
    assert!(matches!(engine.resume_renderer("missing"), Err(WemuxError::DeviceNotFound(_))));
    assert_eq!(engine.is_renderer_paused("missing"), None);
}

#[test]
fn error_helpers() {
    let e = WemuxError::device_error("dev", "broken");
    match &e {
        WemuxError::DeviceError { device_id, message } => {
            assert_eq!(device_id, "dev");
            assert_eq!(message, "broken");
        }
        _ => panic!("expected DeviceError"),
    }
    assert!(e.is_recoverable());
    assert!(WemuxError::BufferOverrun.is_recoverable());
    assert!(WemuxError::BufferUnderrun.is_recoverable());
    assert!(!WemuxError::AlreadyRunning.is_recoverable());
    assert!(!WemuxError::NoHdmiDevices.is_recoverable());
}

#[test]
fn toggling_renderers() {
    let default_id = Some("id-a".to_string());
    let devices = three_devices(&default_id);
    let mut engine = AudioEngine::new(all_config());
    engine.start(&devices, default_id).unwrap();
    assert!(engine.toggle_renderer("id-a").is_none());
    assert_eq!(engine.is_renderer_paused("id-a"), Some(true));
    assert!(engine.toggle_renderer("missing").is_none());
    let (enabled, name) = engine.toggle_renderer("id-b").unwrap();
    assert!(!enabled);
    assert_eq!(name, "TV (HDMI)");
    assert_eq!(engine.is_renderer_paused("id-b"), Some(true));
    let (enabled, _) = engine.toggle_renderer("id-b").unwrap();
    assert!(enabled);
    assert_eq!(engine.is_renderer_paused("id-b"), Some(false));
}
