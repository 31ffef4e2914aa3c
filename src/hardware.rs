//! Latency classes of output endpoints and the buffer sizes they call for.
use vstd::prelude::*;

verus! {

/// 100-nanosecond ticks in a millisecond.
pub const TICKS_PER_MS: i64 = 10_000;

/// Latency class of an endpoint, from its minimum device period.
#[derive(Clone, Copy, Debug, PartialEq, Eq)]
pub enum LatencyClass {
    /// Minimum period under 5 ms.
    LowLatency,
    /// Minimum period from 5 ms to under 15 ms.
    Standard,
    /// Minimum period of 15 ms or more.
    HighLatency,
}

impl LatencyClass {
    pub open spec fn wasapi_buffer_ms_spec(&self) -> u32 {
        match self {
            LatencyClass::LowLatency => 25,
            LatencyClass::Standard => 35,
            LatencyClass::HighLatency => 50,
        }
    }

    pub open spec fn ring_buffer_base_ms_spec(&self) -> u32 {
        match self {
            LatencyClass::LowLatency => 200,
            LatencyClass::Standard => 300,
            LatencyClass::HighLatency => 400,
        }
    }

    /// The class of a device whose minimum period is `min_period` ticks of
    /// 100 ns.
    pub open spec fn of_period(min_period: i64) -> LatencyClass {
        if min_period < 5 * TICKS_PER_MS {
            LatencyClass::LowLatency
        } else if min_period < 15 * TICKS_PER_MS {
            LatencyClass::Standard
        } else {
            LatencyClass::HighLatency
        }
    }

    /// Host buffer duration this class recommends, in milliseconds.
    pub fn wasapi_buffer_ms(&self) -> (r: u32)
        ensures
            r == self.wasapi_buffer_ms_spec(),
    {
        match self {
            LatencyClass::LowLatency => 25,
            LatencyClass::Standard => 35,
            LatencyClass::HighLatency => 50,
        }
    }

    /// Base ring duration for this class, in milliseconds.
    pub fn ring_buffer_base_ms(&self) -> (r: u32)
        ensures
            r == self.ring_buffer_base_ms_spec(),
    {
        match self {
            LatencyClass::LowLatency => 200,
            LatencyClass::Standard => 300,
            LatencyClass::HighLatency => 400,
        }
    }

    /// Classifies a minimum device period given in ticks of 100 ns.
    pub fn classify(min_period: i64) -> (r: LatencyClass)
        ensures
            r == LatencyClass::of_period(min_period),
    {
        if min_period < 5 * TICKS_PER_MS {
            LatencyClass::LowLatency
        } else if min_period < 15 * TICKS_PER_MS {
            LatencyClass::Standard
        } else {
            LatencyClass::HighLatency
        }
    }
}

/// Device periods of an endpoint and its latency class.
#[derive(Clone, Copy, Debug, PartialEq, Eq)]
pub struct HardwareCapabilities {
    /// Minimum period, in ticks of 100 ns.
    pub min_period: i64,
    /// Default shared-mode period, in ticks of 100 ns.
    pub default_period: i64,
    /// Class derived from the minimum period.
    pub latency_class: LatencyClass,
}

impl HardwareCapabilities {
    /// Host buffer duration in ticks: twice the minimum period, or the
    /// class's recommendation if that is longer.
    pub open spec fn optimal_buffer_duration_spec(&self) -> int {
        let safe = 2 * self.min_period;
        let recommended = self.latency_class.wasapi_buffer_ms_spec() * TICKS_PER_MS;
        if safe > recommended {
            safe
        } else {
            recommended
        }
    }

    /// Capabilities of a device reporting these periods.
    pub fn from_periods(default_period: i64, min_period: i64) -> (r: HardwareCapabilities)
        ensures
            r.min_period == min_period,
            r.default_period == default_period,
            r.latency_class == LatencyClass::of_period(min_period),
    {
        HardwareCapabilities {
            min_period,
            default_period,
            latency_class: LatencyClass::classify(min_period),
        }
    }

    /// Host buffer duration to request, in ticks of 100 ns.
    pub fn optimal_buffer_duration(&self) -> (r: i64)
        requires
            i64::MIN / 2 <= self.min_period <= i64::MAX / 2,
        ensures
            r == self.optimal_buffer_duration_spec(),
    {
        let min_safe_buffer = self.min_period * 2;
        let class_recommended = (self.latency_class.wasapi_buffer_ms() as i64) * TICKS_PER_MS;
        if min_safe_buffer > class_recommended {
            min_safe_buffer
        } else {
            class_recommended
        }
    }

    /// Ring duration in milliseconds for `num_renderers` renderers: the
    /// class's base plus 25 ms for each renderer.
    pub fn optimal_ring_buffer_ms(&self, num_renderers: usize) -> (r: u32)
        requires
            self.latency_class.ring_buffer_base_ms_spec() + 25 * num_renderers <= u32::MAX,
        ensures
            r == self.latency_class.ring_buffer_base_ms_spec() + 25 * num_renderers,
    {
        let base_ms = self.latency_class.ring_buffer_base_ms();
        let renderer_margin = (num_renderers as u32) * 25;
        base_ms + renderer_margin
    }
}

impl Default for HardwareCapabilities {
    /// Conservative capabilities for when detection fails: 10 ms periods,
    /// standard class.
    fn default() -> (r: HardwareCapabilities)
        ensures
            r.min_period == 100_000,
            r.default_period == 100_000,
            r.latency_class == LatencyClass::Standard,
    {
        HardwareCapabilities {
            min_period: 100_000,
            default_period: 100_000,
            latency_class: LatencyClass::Standard,
        }
    }
}

} // verus!
