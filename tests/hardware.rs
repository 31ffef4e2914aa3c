use wemux::format::AudioFormat;
use wemux::hardware::{HardwareCapabilities, LatencyClass};

#[test]
fn test_latency_class_wasapi_buffer() {
    assert_eq!(LatencyClass::LowLatency.wasapi_buffer_ms(), 25);
    assert_eq!(LatencyClass::Standard.wasapi_buffer_ms(), 35);
    assert_eq!(LatencyClass::HighLatency.wasapi_buffer_ms(), 50);
}

#[test]
fn test_latency_class_ring_buffer() {
    assert_eq!(LatencyClass::LowLatency.ring_buffer_base_ms(), 200);
    assert_eq!(LatencyClass::Standard.ring_buffer_base_ms(), 300);
    assert_eq!(LatencyClass::HighLatency.ring_buffer_base_ms(), 400);
}

#[test]
fn test_default_capabilities() {
    let caps = HardwareCapabilities::default();
    assert_eq!(caps.latency_class, LatencyClass::Standard);
    assert_eq!(caps.min_period as f64 / 10_000.0, 10.0);
}

#[test]
fn test_ring_buffer_with_renderers() {
    let caps = HardwareCapabilities {
        min_period: 50_000,
        default_period: 100_000,
        latency_class: LatencyClass::Standard,
    };

    assert_eq!(caps.optimal_ring_buffer_ms(0), 300);
    assert_eq!(caps.optimal_ring_buffer_ms(2), 350);
    assert_eq!(caps.optimal_ring_buffer_ms(4), 400);
}

#[test]
fn classification_thresholds() {
    assert_eq!(LatencyClass::classify(0), LatencyClass::LowLatency);
    assert_eq!(LatencyClass::classify(49_999), LatencyClass::LowLatency);
    assert_eq!(LatencyClass::classify(50_000), LatencyClass::Standard);
    assert_eq!(LatencyClass::classify(149_999), LatencyClass::Standard);
    assert_eq!(LatencyClass::classify(150_000), LatencyClass::HighLatency);
    let caps = HardwareCapabilities::from_periods(100_000, 30_000);
    assert_eq!(caps.latency_class, LatencyClass::LowLatency);
    assert_eq!(caps.min_period, 30_000);
    assert_eq!(caps.default_period, 100_000);
}

#[test]
fn buffer_duration_is_the_larger_of_twice_min_period_and_class() {
    let low = HardwareCapabilities::from_periods(100_000, 30_000);
    assert_eq!(low.optimal_buffer_duration(), 250_000);
    let high = HardwareCapabilities::from_periods(300_000, 300_000);
    assert_eq!(high.optimal_buffer_duration(), 600_000);
    let standard = HardwareCapabilities::from_periods(100_000, 100_000);
    assert_eq!(standard.optimal_buffer_duration(), 350_000);
}

#[test]
fn format_arithmetic() {
    let f = AudioFormat { sample_rate: 48_000, channels: 2, bits_per_sample: 32, block_align: 8 };
    assert_eq!(f.bytes_per_second(), 384_000);
    assert_eq!(f.buffer_size_for_ms(500), 192_000);
    assert_eq!(f.buffer_size_for_ms(20), 7_680);
    assert_eq!(f.bytes_to_frames(7_683), 960);
    assert_eq!(f.frames_to_bytes(480), 3_840);
    let odd = AudioFormat { sample_rate: 44_100, channels: 2, bits_per_sample: 16, block_align: 4 };
    assert_eq!(odd.buffer_size_for_ms(1), 176);
}
