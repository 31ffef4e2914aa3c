//! The engine's control state: lifecycle, which endpoints are adopted,
//! which renderers are paused, and what a device notification calls for.
//!
//! Threads, host streams and channels are driven by the caller; this module
//! decides.
use crate::device::{matches_any, DeviceEvent, DeviceInfo, FLOW_RENDER};
use crate::error::WemuxError;
use vstd::prelude::*;

verus! {

/// Settings the engine is started with.
#[derive(Debug)]
pub struct EngineConfig {
    /// Requested host buffer duration per endpoint, in milliseconds.
    pub buffer_ms: u32,
    /// Allow-list: fragments of endpoint ids or names to adopt.
    pub device_ids: Option<Vec<String>>,
    /// Deny-list, applied after the allow-list.
    pub exclude_ids: Option<Vec<String>>,
    /// Capture source; absent means the system default.
    pub source_device_id: Option<String>,
    /// Ids of endpoints that start paused.
    pub paused_device_ids: Option<Vec<String>>,
    /// Adopt every endpoint rather than display-attached ones only.
    pub use_all_devices: bool,
}

impl Default for EngineConfig {
    /// 50 ms buffers, no lists, display-attached endpoints only.
    fn default() -> (r: EngineConfig)
        ensures
            r.buffer_ms == 50,
            r.device_ids is None,
            r.exclude_ids is None,
            r.source_device_id is None,
            r.paused_device_ids is None,
            !r.use_all_devices,
    {
        EngineConfig {
            buffer_ms: 50,
            device_ids: None,
            exclude_ids: None,
            source_device_id: None,
            paused_device_ids: None,
            use_all_devices: false,
        }
    }
}

/// Lifecycle state of the engine.
#[derive(Clone, Copy, Debug, PartialEq, Eq, Structural)]
pub enum EngineState {
    /// Never started.
    Uninitialized,
    /// Started and stopped again.
    Stopped,
    /// Capturing and rendering.
    Running,
    /// Stopping: workers are being joined.
    ShuttingDown,
}

/// Notification for listeners outside the engine.
#[derive(Clone, Copy, Debug, PartialEq, Eq)]
pub enum EngineEvent {
    /// The system default output changed.
    DefaultDeviceChanged,
}

/// Status of one adopted endpoint.
#[derive(Debug)]
pub struct DeviceStatus {
    pub id: String,
    pub name: String,
    /// Adopted endpoints are always enabled.
    pub is_enabled: bool,
    /// Paused by the user or because it is the system default.
    pub is_paused: bool,
    /// The endpoint is the current system default output.
    pub is_system_default: bool,
}

/// Control block of one adopted renderer.
#[derive(Debug)]
pub struct RendererControl {
    pub id: String,
    pub name: String,
    pub paused: bool,
}

/// What the pipeline must do after a device notification.
#[derive(Clone, Copy, Debug, PartialEq, Eq)]
pub struct MonitorAction {
    /// Reopen the loopback capture on the new default output.
    pub reinitialize_capture: bool,
    /// Rebind the volume follower to the new default output.
    pub rebind_volume: bool,
    /// Tell listeners that the default output changed.
    pub notify_listeners: bool,
}

/// `d` is a candidate before the deny-list: it is display-attached unless
/// all endpoints are used, and it is on the allow-list if there is one.
pub open spec fn candidate(config: EngineConfig, d: DeviceInfo) -> bool {
    (config.use_all_devices || d.is_hdmi) && match config.device_ids {
        Some(ids) => matches_any(d, ids@),
        None => true,
    }
}

/// `d` is adopted under `config`.
pub open spec fn admitted(config: EngineConfig, d: DeviceInfo) -> bool {
    candidate(config, d) && match config.exclude_ids {
        Some(ex) => !matches_any(d, ex@),
        None => true,
    }
}

/// The endpoints adopted out of `devices`, in order.
pub open spec fn targets(config: EngineConfig, devices: Seq<DeviceInfo>) -> Seq<DeviceInfo> {
    devices.filter(|d: DeviceInfo| admitted(config, d))
}

/// `id` is on the list of endpoints that start paused.
pub open spec fn listed_paused(config: EngineConfig, id: Seq<char>) -> bool {
    match config.paused_device_ids {
        Some(ids) => exists|k: int| 0 <= k < ids@.len() && (#[trigger] ids@[k])@ == id,
        None => false,
    }
}

/// `id` is the current default output.
pub open spec fn is_default_id(default_id: Option<String>, id: Seq<char>) -> bool {
    default_id is Some && default_id->0@ == id
}

/// `rs` with the renderers of endpoint `id` set to `paused`, the others
/// left as they are.
pub open spec fn with_paused(rs: Seq<RendererControl>, id: Seq<char>, paused: bool) -> Seq<
    RendererControl,
> {
    Seq::new(
        rs.len(),
        |i: int|
            if rs[i].id@ == id {
                RendererControl { paused, ..rs[i] }
            } else {
                rs[i]
            },
    )
}

/// Some renderer of `rs` drives endpoint `id`.
pub open spec fn has_renderer(rs: Seq<RendererControl>, id: Seq<char>) -> bool {
    exists|i: int| 0 <= i < rs.len() && (#[trigger] rs[i]).id@ == id
}

/// The renderers adopted for `targets`: one per target in order, paused
/// when it is the default output or listed to start paused.
pub open spec fn adopted_renderers(
    config: EngineConfig,
    targets: Seq<DeviceInfo>,
    default_id: Option<String>,
) -> Seq<RendererControl> {
    Seq::new(
        targets.len(),
        |i: int|
            RendererControl {
                id: targets[i].id,
                name: targets[i].name,
                paused: is_default_id(default_id, targets[i].id@) || listed_paused(
                    config,
                    targets[i].id@,
                ),
            },
    )
}

/// `t` with every endpoint whose id already occurred left out.
pub open spec fn distinct_by_id(t: Seq<DeviceInfo>) -> Seq<DeviceInfo>
    decreases t.len(),
{
    if t.len() == 0 {
        t
    } else {
        let d = distinct_by_id(t.drop_last());
        if exists|j: int| 0 <= j < d.len() && (#[trigger] d[j]).id@ == t.last().id@ {
            d
        } else {
            d.push(t.last())
        }
    }
}

/// Removing repeated ids leaves a non-empty list non-empty.
proof fn lemma_distinct_nonempty(t: Seq<DeviceInfo>)
    ensures
        t.len() > 0 ==> distinct_by_id(t).len() > 0,
    decreases t.len(),
{
    if t.len() > 0 {
        lemma_distinct_nonempty(t.drop_last());
    }
}

/// No two renderers of `rs` drive the same endpoint.
pub open spec fn ids_distinct(rs: Seq<RendererControl>) -> bool {
    forall|i: int, j: int| 0 <= i < j < rs.len() ==> #[trigger] rs[i].id@ != #[trigger] rs[j].id@
}

/// The engine's control state.
pub struct AudioEngine {
    config: EngineConfig,
    state: EngineState,
    renderers: Vec<RendererControl>,
    current_default_id: Option<String>,
}

impl AudioEngine {
    pub closed spec fn config_spec(&self) -> EngineConfig {
        self.config
    }

    pub closed spec fn state_spec(&self) -> EngineState {
        self.state
    }

    /// The adopted renderers, master first.
    pub closed spec fn renderers_spec(&self) -> Seq<RendererControl> {
        self.renderers@
    }

    pub closed spec fn default_spec(&self) -> Option<String> {
        self.current_default_id
    }

    /// Every adopted endpoint has one renderer.
    pub open spec fn wf(&self) -> bool {
        ids_distinct(self.renderers_spec())
    }

    /// `self` and `other` hold the same control state.
    pub open spec fn same_control(&self, other: AudioEngine) -> bool {
        &&& self.config_spec() == other.config_spec()
        &&& self.state_spec() == other.state_spec()
        &&& self.renderers_spec() == other.renderers_spec()
        &&& self.default_spec() == other.default_spec()
    }

    /// What `start` does: refuse while running, fail when no endpoint is
    /// adopted, both without a change; else adopt the targets and run.
    pub open spec fn start_post(
        before: AudioEngine,
        after: AudioEngine,
        devices: Seq<DeviceInfo>,
        default_id: Option<String>,
        r: Result<(), WemuxError>,
    ) -> bool {
        let t = targets(before.config_spec(), devices);
        if before.state_spec() == EngineState::Running {
            r == Err::<(), WemuxError>(WemuxError::AlreadyRunning) && after.same_control(before)
        } else if t.len() == 0 {
            r == Err::<(), WemuxError>(WemuxError::NoHdmiDevices) && after.same_control(before)
        } else {
            &&& r is Ok
            &&& after.config_spec() == before.config_spec()
            &&& after.state_spec() == EngineState::Running
            &&& after.default_spec() == default_id
            &&& after.renderers_spec() == adopted_renderers(
                before.config_spec(),
                distinct_by_id(t),
                default_id,
            )
        }
    }

    /// What `begin_stop` does: a running engine starts shutting down; any
    /// other is left alone.
    pub open spec fn begin_stop_post(before: AudioEngine, after: AudioEngine, r: bool) -> bool {
        if before.state_spec() == EngineState::Running {
            &&& r
            &&& after.state_spec() == EngineState::ShuttingDown
            &&& after.config_spec() == before.config_spec()
            &&& after.renderers_spec() == before.renderers_spec()
            &&& after.default_spec() == before.default_spec()
        } else {
            !r && after.same_control(before)
        }
    }

    /// What `finish_stop` does: the engine is stopped and forgets its
    /// renderers and the default output.
    pub open spec fn finish_stop_post(before: AudioEngine, after: AudioEngine) -> bool {
        &&& after.state_spec() == EngineState::Stopped
        &&& after.config_spec() == before.config_spec()
        &&& after.renderers_spec() == Seq::<RendererControl>::empty()
        &&& after.default_spec() is None
    }

    /// A stopped-from-birth engine with `config`.
    pub fn new(config: EngineConfig) -> (r: AudioEngine)
        ensures
            r.config_spec() == config,
            r.wf(),
            r.state_spec() == EngineState::Uninitialized,
            r.renderers_spec() == Seq::<RendererControl>::empty(),
            r.default_spec() is None,
    {
        AudioEngine {
            config,
            state: EngineState::Uninitialized,
            renderers: Vec::new(),
            current_default_id: None,
        }
    }

    /// The configuration.
    pub fn config(&self) -> (r: &EngineConfig)
        ensures
            *r == self.config_spec(),
    {
        &self.config
    }

    /// The lifecycle state.
    pub fn state(&self) -> (r: EngineState)
        ensures
            r == self.state_spec(),
    {
        self.state
    }

    /// The engine is running.
    pub fn is_running(&self) -> (r: bool)
        ensures
            r == (self.state_spec() == EngineState::Running),
    {
        self.state == EngineState::Running
    }

    /// The endpoints of `devices` that this engine's configuration adopts.
    pub fn get_target_devices(&self, devices: &Vec<DeviceInfo>) -> (r: Vec<DeviceInfo>)
        ensures
            r@ == targets(self.config_spec(), devices@),
    {
        let ghost pred = |d: DeviceInfo| admitted(self.config, d);
        let mut out: Vec<DeviceInfo> = Vec::new();
        let mut i: usize = 0;
        while i < devices.len()
            invariant
                0 <= i <= devices@.len(),
                pred == (|d: DeviceInfo| admitted(self.config, d)),
                out@ == devices@.take(i as int).filter(pred),
            decreases devices@.len() - i,
        {
            let d = &devices[i];
            let cand = (self.config.use_all_devices || d.is_hdmi) && match &self.config.device_ids {
                Some(ids) => d.matches_any(ids),
                None => true,
            };
            let keep = cand && match &self.config.exclude_ids {
                Some(ex) => !d.matches_any(ex),
                None => true,
            };
            proof {
                assert(devices@.take(i + 1) =~= devices@.take(i as int).push(devices@[i as int]));
                devices@.take(i as int).lemma_filter_push(devices@[i as int], pred);
            }
            if keep {
                out.push(d.duplicate());
            }
            i = i + 1;
        }
        proof {
            assert(devices@.take(devices@.len() as int) =~= devices@);
        }
        out
    }

    /// `device_id` is on the configured list of endpoints that start paused.
    pub fn should_device_start_paused(&self, device_id: &str) -> (r: bool)
        ensures
            r == listed_paused(self.config_spec(), device_id@),
    {
        match &self.config.paused_device_ids {
            Some(ids) => {
                let key = device_id.to_owned();
                let mut k: usize = 0;
                while k < ids.len()
                    invariant
                        0 <= k <= ids@.len(),
                        key@ == device_id@,
                        self.config.paused_device_ids == Some(*ids),
                        forall|q: int| 0 <= q < k ==> (#[trigger] ids@[q])@ != device_id@,
                    decreases ids@.len() - k,
                {
                    if ids[k] == key {
                        assert((self.config.paused_device_ids->0@[k as int])@ == device_id@);
                        return true;
                    }
                    k = k + 1;
                }
                false
            },
            None => false,
        }
    }

    /// Starts the control state with the endpoints `devices` the host
    /// reports and the host's default output `default_id`. Refused with
    /// `AlreadyRunning` while running and failed with `NoHdmiDevices` when
    /// nothing is adopted, both without a change.
    pub fn start(&mut self, devices: &Vec<DeviceInfo>, default_id: Option<String>) -> (r: Result<
        (),
        WemuxError,
    >)
        requires
            old(self).wf(),
        ensures
            final(self).wf(),
            AudioEngine::start_post(*old(self), *final(self), devices@, default_id, r),
    {
        if self.state == EngineState::Running {
            return Err(WemuxError::AlreadyRunning);
        }
        let t = self.get_target_devices(devices);
        if t.len() == 0 {
            return Err(WemuxError::NoHdmiDevices);
        }
        let mut rs: Vec<RendererControl> = Vec::new();
        let mut i: usize = 0;
        while i < t.len()
            invariant
                0 <= i <= t@.len(),
                rs@ == adopted_renderers(self.config, distinct_by_id(t@.take(i as int)), default_id),
                ids_distinct(rs@),
            decreases t@.len() - i,
        {
            let ghost d = distinct_by_id(t@.take(i as int));
            let mut seen = false;
            let mut j: usize = 0;
            while j < rs.len()
                invariant
                    0 <= j <= rs@.len(),
                    rs@.len() == d.len(),
                    forall|q: int| 0 <= q < rs@.len() ==> (#[trigger] rs@[q]).id == d[q].id,
                    i < t@.len(),
                    seen == exists|q: int| 0 <= q < j && (#[trigger] d[q]).id@ == t@[i as int].id@,
                decreases rs@.len() - j,
            {
                if rs[j].id == t[i].id {
                    assert(d[j as int].id@ == t@[i as int].id@);
                    seen = true;
                }
                j = j + 1;
            }
            proof {
                assert(t@.take(i + 1).drop_last() =~= t@.take(i as int));
                assert(t@.take(i + 1).last() == t@[i as int]);
            }
            if !seen {
                let is_default = match &default_id {
                    Some(dd) => *dd == t[i].id,
                    None => false,
                };
                let paused = is_default || self.should_device_start_paused(t[i].id.as_str());
                let ghost prev = rs@;
                rs.push(RendererControl { id: t[i].id.clone(), name: t[i].name.clone(), paused });
                proof {
                    assert(rs@ =~= adopted_renderers(self.config, d.push(t@[i as int]), default_id));
                    assert forall|a: int, b: int| 0 <= a < b < rs@.len() implies #[trigger] rs@[a].id@
                        != #[trigger] rs@[b].id@ by {
                        if b == rs@.len() - 1 {
                            assert(prev[a].id == d[a].id);
                        }
                    }
                }
            }
            i = i + 1;
        }
        proof {
            assert(t@.take(t@.len() as int) =~= t@);
            lemma_distinct_nonempty(t@);
        }
        self.renderers = rs;
        self.current_default_id = default_id;
        self.state = EngineState::Running;
        Ok(())
    }

    /// Sets the paused flag of the renderers of `device_id`; tells whether
    /// there was one.
    fn set_paused(&mut self, device_id: &str, paused: bool) -> (found: bool)
        requires
            old(self).wf(),
        ensures
            final(self).wf(),
            found == has_renderer(old(self).renderers_spec(), device_id@),
            final(self).renderers_spec() == with_paused(
                old(self).renderers_spec(),
                device_id@,
                paused,
            ),
            final(self).config_spec() == old(self).config_spec(),
            final(self).state_spec() == old(self).state_spec(),
            final(self).default_spec() == old(self).default_spec(),
    {
        let key = device_id.to_owned();
        let ghost want = with_paused(self.renderers@, device_id@, paused);
        let ghost orig = self.renderers@;
        let mut found = false;
        let mut i: usize = 0;
        while i < self.renderers.len()
            invariant
                0 <= i <= self.renderers@.len(),
                key@ == device_id@,
                orig.len() == self.renderers@.len(),
                want == with_paused(orig, device_id@, paused),
                forall|j: int| 0 <= j < i ==> #[trigger] self.renderers@[j] == want[j],
                forall|j: int| i <= j < self.renderers@.len() ==> #[trigger] self.renderers@[j] == orig[j],
                found == exists|j: int| 0 <= j < i && (#[trigger] orig[j]).id@ == device_id@,
                self.config == old(self).config,
                self.state == old(self).state,
                self.current_default_id == old(self).current_default_id,
                orig == old(self).renderers@,
            decreases self.renderers@.len() - i,
        {
            if self.renderers[i].id == key {
                let rc = RendererControl {
                    id: self.renderers[i].id.clone(),
                    name: self.renderers[i].name.clone(),
                    paused,
                };
                self.renderers.set(i, rc);
                found = true;
            }
            i = i + 1;
        }
        proof {
            assert(self.renderers@ =~= want);
        }
        found
    }

    /// Pauses the renderer of `device_id`; `DeviceNotFound` if none was
    /// adopted for it.
    pub fn pause_renderer(&mut self, device_id: &str) -> (r: Result<(), WemuxError>)
        requires
            old(self).wf(),
        ensures
            final(self).wf(),
            final(self).config_spec() == old(self).config_spec(),
            final(self).state_spec() == old(self).state_spec(),
            final(self).default_spec() == old(self).default_spec(),
            has_renderer(old(self).renderers_spec(), device_id@) ==> r is Ok
                && final(self).renderers_spec() == with_paused(
                old(self).renderers_spec(),
                device_id@,
                true,
            ),
            !has_renderer(old(self).renderers_spec(), device_id@) ==> (r matches Err(
                WemuxError::DeviceNotFound(m),
            ) && m@ == device_id@ && final(self).renderers_spec() == old(self).renderers_spec()),
    {
        if self.set_paused(device_id, true) {
            Ok(())
        } else {
            proof {
                assert(with_paused(old(self).renderers@, device_id@, true) =~= old(self).renderers@);
            }
            Err(WemuxError::DeviceNotFound(device_id.to_owned()))
        }
    }

    /// Resumes the renderer of `device_id`; `DeviceNotFound` if none was
    /// adopted for it.
    pub fn resume_renderer(&mut self, device_id: &str) -> (r: Result<(), WemuxError>)
        requires
            old(self).wf(),
        ensures
            final(self).wf(),
            final(self).config_spec() == old(self).config_spec(),
            final(self).state_spec() == old(self).state_spec(),
            final(self).default_spec() == old(self).default_spec(),
            has_renderer(old(self).renderers_spec(), device_id@) ==> r is Ok
                && final(self).renderers_spec() == with_paused(
                old(self).renderers_spec(),
                device_id@,
                false,
            ),
            !has_renderer(old(self).renderers_spec(), device_id@) ==> (r matches Err(
                WemuxError::DeviceNotFound(m),
            ) && m@ == device_id@ && final(self).renderers_spec() == old(self).renderers_spec()),
    {
        if self.set_paused(device_id, false) {
            Ok(())
        } else {
            proof {
                assert(with_paused(old(self).renderers@, device_id@, false) =~= old(self).renderers@);
            }
            Err(WemuxError::DeviceNotFound(device_id.to_owned()))
        }
    }

    /// `device_id` is the current default output.
    pub fn is_device_default(&self, device_id: &str) -> (r: bool)
        ensures
            r == is_default_id(self.default_spec(), device_id@),
    {
        let key = device_id.to_owned();
        match &self.current_default_id {
            Some(d) => *d == key,
            None => false,
        }
    }

    /// The paused flag of the renderer of `device_id`, if one was adopted.
    pub fn is_renderer_paused(&self, device_id: &str) -> (r: Option<bool>)
        ensures
            has_renderer(self.renderers_spec(), device_id@) ==> (r matches Some(p) && exists|i: int|
                0 <= i < self.renderers_spec().len() && (#[trigger] self.renderers_spec()[i]).id@
                    == device_id@ && self.renderers_spec()[i].paused == p),
            !has_renderer(self.renderers_spec(), device_id@) ==> r is None,
    {
        let key = device_id.to_owned();
        let mut i: usize = 0;
        while i < self.renderers.len()
            invariant
                0 <= i <= self.renderers@.len(),
                key@ == device_id@,
                forall|j: int| 0 <= j < i ==> (#[trigger] self.renderers@[j]).id@ != device_id@,
            decreases self.renderers@.len() - i,
        {
            if self.renderers[i].id == key {
                return Some(self.renderers[i].paused);
            }
            i = i + 1;
        }
        None
    }

    /// Flips the renderer of `device_id` between paused and playing, as the
    /// user toggles it. The default output cannot be toggled. Returns the
    /// new enabled state and the endpoint's name, or `None` when nothing was
    /// changed: no renderer was adopted for it, or it is the default output.
    pub fn toggle_renderer(&mut self, device_id: &str) -> (r: Option<(bool, String)>)
        requires
            old(self).wf(),
        ensures
            final(self).wf(),
            final(self).config_spec() == old(self).config_spec(),
            final(self).state_spec() == old(self).state_spec(),
            final(self).default_spec() == old(self).default_spec(),
            r is None <==> (!has_renderer(old(self).renderers_spec(), device_id@) || is_default_id(
                old(self).default_spec(),
                device_id@,
            )),
            r is None ==> final(self).renderers_spec() == old(self).renderers_spec(),
            r matches Some((enabled, name)) ==> (exists|i: int|
                0 <= i < old(self).renderers_spec().len() && (#[trigger] old(
                    self,
                ).renderers_spec()[i]).id@ == device_id@ && old(self).renderers_spec()[i].paused
                    == enabled && old(self).renderers_spec()[i].name == name)
                && final(self).renderers_spec() == with_paused(
                old(self).renderers_spec(),
                device_id@,
                !enabled,
            ),
    {
        if self.is_device_default(device_id) {
            return None;
        }
        let key = device_id.to_owned();
        let mut i: usize = 0;
        while i < self.renderers.len()
            invariant
                0 <= i <= self.renderers@.len(),
                key@ == device_id@,
                forall|j: int| 0 <= j < i ==> (#[trigger] self.renderers@[j]).id@ != device_id@,
                !is_default_id(self.current_default_id, device_id@),
                self.wf(),
                self.config == old(self).config,
                self.state == old(self).state,
                self.current_default_id == old(self).current_default_id,
                self.renderers@ == old(self).renderers@,
            decreases self.renderers@.len() - i,
        {
            if self.renderers[i].id == key {
                let enabled = self.renderers[i].paused;
                let name = self.renderers[i].name.clone();
                self.set_paused(device_id, !enabled);
                return Some((enabled, name));
            }
            i = i + 1;
        }
        None
    }

    /// One status per adopted renderer, in order.
    pub fn get_device_statuses(&self) -> (r: Vec<DeviceStatus>)
        requires
            self.wf(),
        ensures
            forall|i: int, j: int| 0 <= i < j < r@.len() ==> #[trigger] r@[i].id@ != #[trigger] r@[j].id@,
            forall|i: int, j: int|
                0 <= i < j < r@.len() ==> !(#[trigger] r@[i].is_system_default
                    && #[trigger] r@[j].is_system_default),
            r@.len() == self.renderers_spec().len(),
            forall|i: int|
                0 <= i < r@.len() ==> {
                    let s = #[trigger] r@[i];
                    let c = self.renderers_spec()[i];
                    &&& s.id == c.id
                    &&& s.name == c.name
                    &&& s.is_enabled
                    &&& s.is_paused == c.paused
                    &&& s.is_system_default == is_default_id(self.default_spec(), c.id@)
                },
    {
        let mut out: Vec<DeviceStatus> = Vec::new();
        let mut i: usize = 0;
        while i < self.renderers.len()
            invariant
                0 <= i <= self.renderers@.len(),
                out@.len() == i,
                forall|j: int|
                    0 <= j < i ==> {
                        let s = #[trigger] out@[j];
                        let c = self.renderers@[j];
                        &&& s.id == c.id
                        &&& s.name == c.name
                        &&& s.is_enabled
                        &&& s.is_paused == c.paused
                        &&& s.is_system_default == is_default_id(self.current_default_id, c.id@)
                    },
            decreases self.renderers@.len() - i,
        {
            let c = &self.renderers[i];
            let is_system_default = match &self.current_default_id {
                Some(d) => *d == c.id,
                None => false,
            };
            out.push(
                DeviceStatus {
                    id: c.id.clone(),
                    name: c.name.clone(),
                    is_enabled: true,
                    is_paused: c.paused,
                    is_system_default,
                },
            );
            i = i + 1;
        }
        out
    }

    /// Reacts to a device notification. A change of the default render
    /// output records the new default, pauses the renderer of that endpoint
    /// so that it does not echo what is captured from it, leaves every other
    /// paused flag alone, and asks for the capture and the volume follower
    /// to rebind and for listeners to be told. Other notifications change
    /// nothing and ask for nothing.
    pub fn handle_device_event(&mut self, event: &DeviceEvent) -> (r: MonitorAction)
        requires
            old(self).wf(),
        ensures
            final(self).wf(),
            final(self).config_spec() == old(self).config_spec(),
            final(self).state_spec() == old(self).state_spec(),
            match event {
                DeviceEvent::DefaultChanged { data_flow, device_id, .. } if *data_flow
                    == FLOW_RENDER => {
                    &&& r == MonitorAction {
                        reinitialize_capture: true,
                        rebind_volume: true,
                        notify_listeners: true,
                    }
                    &&& final(self).default_spec() == Some(*device_id)
                    &&& final(self).renderers_spec() == with_paused(
                        old(self).renderers_spec(),
                        device_id@,
                        true,
                    )
                },
                _ => {
                    &&& r == MonitorAction {
                        reinitialize_capture: false,
                        rebind_volume: false,
                        notify_listeners: false,
                    }
                    &&& final(self).same_control(*old(self))
                },
            },
    {
        match event {
            DeviceEvent::DefaultChanged { data_flow, device_id, .. } => {
                if *data_flow == FLOW_RENDER {
                    self.current_default_id = Some(device_id.clone());
                    self.set_paused(device_id.as_str(), true);
                    return MonitorAction {
                        reinitialize_capture: true,
                        rebind_volume: true,
                        notify_listeners: true,
                    };
                }
            },
            _ => {},
        }
        MonitorAction { reinitialize_capture: false, rebind_volume: false, notify_listeners: false }
    }

    /// Begins stopping: a running engine moves to `ShuttingDown` and `true`
    /// is returned; any other engine is left alone.
    pub fn begin_stop(&mut self) -> (r: bool)
        requires
            old(self).wf(),
        ensures
            final(self).wf(),
            AudioEngine::begin_stop_post(*old(self), *final(self), r),
    {
        if self.state != EngineState::Running {
            return false;
        }
        self.state = EngineState::ShuttingDown;
        true
    }

    /// Completes stopping once the workers are joined.
    pub fn finish_stop(&mut self)
        ensures
            final(self).wf(),
            AudioEngine::finish_stop_post(*old(self), *final(self)),
    {
        self.renderers = Vec::new();
        self.current_default_id = None;
        self.state = EngineState::Stopped;
    }
}

/// A second `start` right after a successful one is refused with
/// `AlreadyRunning` and changes nothing.
pub proof fn lemma_second_start_is_refused(
    e0: AudioEngine,
    e1: AudioEngine,
    e2: AudioEngine,
    devices1: Seq<DeviceInfo>,
    devices2: Seq<DeviceInfo>,
    default1: Option<String>,
    default2: Option<String>,
    r1: Result<(), WemuxError>,
    r2: Result<(), WemuxError>,
)
    requires
        AudioEngine::start_post(e0, e1, devices1, default1, r1),
        r1 is Ok,
        AudioEngine::start_post(e1, e2, devices2, default2, r2),
    ensures
        r2 == Err::<(), WemuxError>(WemuxError::AlreadyRunning),
        e2.same_control(e1),
{
}

/// Stopping a running engine leaves it `Stopped`; stopping it again is a
/// no-op.
pub proof fn lemma_stop_after_start(
    e1: AudioEngine,
    e2: AudioEngine,
    e3: AudioEngine,
    e4: AudioEngine,
    r2: bool,
    r4: bool,
)
    requires
        e1.state_spec() == EngineState::Running,
        AudioEngine::begin_stop_post(e1, e2, r2),
        AudioEngine::finish_stop_post(e2, e3),
        AudioEngine::begin_stop_post(e3, e4, r4),
    ensures
        r2,
        e3.state_spec() == EngineState::Stopped,
        !r4,
        e4.same_control(e3),
{
}

/// After the default output changes to `e`, every renderer of `e` is paused;
/// the flags of the others are left as they were.
pub proof fn lemma_default_change_pauses_its_renderer(rs: Seq<RendererControl>, e: Seq<char>)
    ensures
        forall|i: int|
            0 <= i < rs.len() && rs[i].id@ == e ==> (#[trigger] with_paused(rs, e, true)[i]).paused,
        forall|i: int|
            0 <= i < rs.len() && rs[i].id@ != e ==> (#[trigger] with_paused(rs, e, true)[i]).paused
                == rs[i].paused,
{
}

} // verus!
