//! Output endpoints as the host reports them, and endpoint notifications.
use crate::filter::{
    chars_of, contains_chars, contains_seq, is_hdmi_id, is_hdmi_name, lower_of, HdmiFilter,
};
use vstd::prelude::*;

verus! {

/// An active render endpoint.
#[derive(Debug)]
pub struct DeviceInfo {
    /// Stable endpoint id.
    pub id: String,
    /// Friendly name.
    pub name: String,
    /// Recognised as display-attached, by name or id.
    pub is_hdmi: bool,
    /// The current default render endpoint.
    pub is_default: bool,
}

/// Data-flow code of render endpoints in default-change notifications.
pub const FLOW_RENDER: i32 = 0;

/// A notification about the host's endpoints.
#[derive(Debug)]
pub enum DeviceEvent {
    /// An endpoint appeared.
    Added(String),
    /// An endpoint went away.
    Removed(String),
    /// The default endpoint for a data flow and role changed.
    DefaultChanged { data_flow: i32, role: i32, device_id: String },
    /// An endpoint's state changed.
    StateChanged { device_id: String, new_state: u32 },
    /// A property of an endpoint changed.
    PropertyChanged { device_id: String },
}

/// `pattern` occurs in the id or in the name of `d`.
pub open spec fn device_matches(d: DeviceInfo, pattern: Seq<char>) -> bool {
    contains_seq(d.id@, pattern) || contains_seq(d.name@, pattern)
}

/// `d` matches one of `patterns`.
pub open spec fn matches_any(d: DeviceInfo, patterns: Seq<String>) -> bool {
    exists|k: int| 0 <= k < patterns.len() && device_matches(d, #[trigger] patterns[k]@)
}

impl DeviceInfo {
    /// Describes the endpoint `id` named `name`, given the id of the current
    /// default endpoint, if any.
    pub fn new(id: String, name: String, default_id: &Option<String>) -> (r: DeviceInfo)
        ensures
            r.id == id,
            r.name == name,
            r.is_hdmi == (is_hdmi_name(lower_of(name@)) || is_hdmi_id(lower_of(id@))),
            r.is_default == (default_id is Some && default_id->0@ == id@),
    {
        let is_hdmi = HdmiFilter::is_hdmi_device(name.as_str()) || HdmiFilter::is_hdmi_device_id(
            id.as_str(),
        );
        let is_default = match default_id {
            Some(d) => *d == id,
            None => false,
        };
        DeviceInfo { id, name, is_hdmi, is_default }
    }

    /// A copy of this description.
    pub fn duplicate(&self) -> (r: DeviceInfo)
        ensures
            r == *self,
    {
        DeviceInfo {
            id: self.id.clone(),
            name: self.name.clone(),
            is_hdmi: self.is_hdmi,
            is_default: self.is_default,
        }
    }

    /// `pattern` occurs in this endpoint's id or name.
    pub fn matches(&self, pattern: &String) -> (r: bool)
        ensures
            r == device_matches(*self, pattern@),
    {
        let p = chars_of(pattern.as_str());
        contains_chars(&chars_of(self.id.as_str()), &p) || contains_chars(
            &chars_of(self.name.as_str()),
            &p,
        )
    }

    /// This endpoint matches one of `patterns`.
    pub fn matches_any(&self, patterns: &Vec<String>) -> (r: bool)
        ensures
            r == matches_any(*self, patterns@),
    {
        let mut k: usize = 0;
        while k < patterns.len()
            invariant
                0 <= k <= patterns@.len(),
                forall|q: int| 0 <= q < k ==> !device_matches(*self, #[trigger] patterns@[q]@),
            decreases patterns@.len() - k,
        {
            if self.matches(&patterns[k]) {
                return true;
            }
            k = k + 1;
        }
        false
    }
}

} // verus!
