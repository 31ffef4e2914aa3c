//! Messages between the tray UI and the engine's controller.
use crate::device::DeviceInfo;
use crate::engine::{DeviceStatus, EngineConfig, EngineState};
use crate::settings::TraySettings;
use vstd::prelude::*;

verus! {

/// A request from the UI to the controller.
#[derive(Debug)]
pub enum TrayCommand {
    /// Start the engine.
    Start,
    /// Stop the engine.
    Stop,
    /// Flip an endpoint between enabled and paused.
    ToggleDevice { device_id: String },
    /// Enable or pause an endpoint.
    SetDeviceEnabled { device_id: String, enabled: bool },
    /// Report the endpoints again.
    RefreshDevices,
    /// End the controller.
    Shutdown,
}

/// A report from the controller to the UI.
#[derive(Debug)]
pub enum EngineStatus {
    /// The endpoints and their states.
    DevicesUpdated(Vec<DeviceStatus>),
    /// Name of the new default output.
    DefaultDeviceChanged(String),
    /// The engine's lifecycle state changed.
    EngineStateChanged(EngineState),
    /// Something failed.
    Error(String),
}

/// What a menu entry does.
#[derive(Debug)]
pub enum MenuAction {
    ToggleDevice(String),
    RefreshDevices,
    StartEngine,
    StopEngine,
    Exit,
}

/// Options of the tray application.
#[derive(Clone, Copy, Debug, PartialEq, Eq)]
pub struct TrayConfig {
    /// Start the engine on launch.
    pub auto_start: bool,
    /// Show notifications for errors.
    pub show_notifications: bool,
}

impl Default for TrayConfig {
    /// Start on launch and show notifications.
    fn default() -> (r: TrayConfig)
        ensures
            r.auto_start,
            r.show_notifications,
    {
        TrayConfig { auto_start: true, show_notifications: true }
    }
}

/// Decisions of the controller that sits between the tray UI and the
/// engine.
pub struct EngineController;

impl EngineController {
    /// Engine settings for the tray: every endpoint, 50 ms buffers, and the
    /// disabled endpoints starting paused.
    pub fn build_engine_config(settings: &TraySettings) -> (r: EngineConfig)
        requires
            settings.wf(),
        ensures
            r.buffer_ms == 50,
            r.device_ids is None,
            r.exclude_ids is None,
            r.source_device_id is None,
            r.use_all_devices,
            match r.paused_device_ids {
                None => forall|k: Seq<char>| #[trigger] settings.view().contains_key(k) ==> settings.view()[k].1,
                Some(ids) => ids@.len() > 0 && (forall|i: int|
                    0 <= i < ids@.len() ==> #[trigger] settings.view().contains_key(ids@[i]@)
                        && !settings.view()[ids@[i]@].1) && (forall|k: Seq<char>|
                    #[trigger] settings.view().contains_key(k) && !settings.view()[k].1 ==> exists|i: int|
                        0 <= i < ids@.len() && #[trigger] ids@[i]@ == k),
            },
    {
        let paused = settings.disabled_device_ids();
        let paused_device_ids = if paused.len() == 0 {
            proof {
                assert forall|k: Seq<char>| #[trigger] settings.view().contains_key(k) implies settings.view()[k].1 by {
                    if !settings.view()[k].1 {
                        let i = choose|i: int| 0 <= i < paused@.len() && #[trigger] paused@[i]@ == k;
                    }
                }
            }
            None
        } else {
            Some(paused)
        };
        EngineConfig {
            buffer_ms: 50,
            device_ids: None,
            exclude_ids: None,
            source_device_id: None,
            paused_device_ids,
            use_all_devices: true,
        }
    }

    /// Flips the setting of `device_id`, keeping its stored name or naming
    /// it by its id; returns the new flag.
    pub fn toggle_device_setting(settings: &mut TraySettings, device_id: &str) -> (r: bool)
        requires
            old(settings).wf(),
        ensures
            final(settings).wf(),
            r == !old(settings).enabled_spec(device_id@),
            old(settings).view().contains_key(device_id@) ==> final(settings).view() == old(
                settings,
            ).view().insert(device_id@, (old(settings).view()[device_id@].0, r)),
            !old(settings).view().contains_key(device_id@) ==> final(settings).view() == old(
                settings,
            ).view().insert(device_id@, (device_id@, r)),
    {
        let enabled = !settings.is_device_enabled(device_id);
        let name = match settings.device_name(device_id) {
            Some(n) => n,
            None => device_id.to_owned(),
        };
        settings.set_device_enabled(device_id, name.as_str(), enabled);
        enabled
    }

    /// Statuses of `devices` while the engine is stopped: an endpoint is
    /// paused when it is the default output or disabled, and enabled
    /// otherwise.
    pub fn stopped_statuses(settings: &TraySettings, devices: &Vec<DeviceInfo>) -> (r: Vec<DeviceStatus>)
        requires
            settings.wf(),
        ensures
            r@.len() == devices@.len(),
            forall|i: int|
                0 <= i < r@.len() ==> {
                    let s = #[trigger] r@[i];
                    let d = devices@[i];
                    &&& s.id == d.id
                    &&& s.name == d.name
                    &&& s.is_paused == (d.is_default || !settings.enabled_spec(d.id@))
                    &&& s.is_enabled == !s.is_paused
                    &&& s.is_system_default == d.is_default
                },
    {
        let mut out: Vec<DeviceStatus> = Vec::new();
        let mut i: usize = 0;
        while i < devices.len()
            invariant
                settings.wf(),
                0 <= i <= devices@.len(),
                out@.len() == i,
                forall|j: int|
                    0 <= j < i ==> {
                        let s = #[trigger] out@[j];
                        let d = devices@[j];
                        &&& s.id == d.id
                        &&& s.name == d.name
                        &&& s.is_paused == (d.is_default || !settings.enabled_spec(d.id@))
                        &&& s.is_enabled == !s.is_paused
                        &&& s.is_system_default == d.is_default
                    },
            decreases devices@.len() - i,
        {
            let d = &devices[i];
            let is_paused = d.is_default || !settings.is_device_enabled(d.id.as_str());
            out.push(
                DeviceStatus {
                    id: d.id.clone(),
                    name: d.name.clone(),
                    is_enabled: !is_paused,
                    is_paused,
                    is_system_default: d.is_default,
                },
            );
            i = i + 1;
        }
        out
    }
}

} // verus!
