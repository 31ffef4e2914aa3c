use wemux::clock::{ClockSync, MAX_CORRECTION_SAMPLES};

fn drift_ms(sync: &ClockSync, id: &str) -> f64 {
    sync.get_drift_samples(id).unwrap() as f64 * 1000.0 / sync.sample_rate() as f64
}

#[test]
fn test_master_slave_basic() {
    let mut sync = ClockSync::new(48000);
    sync.set_master("master");
    sync.register_slave("slave1");

    assert!(sync.is_master("master"));
    assert!(!sync.is_master("slave1"));
}

#[test]
fn test_drift_calculation() {
    let mut sync = ClockSync::new(48000);
    sync.set_master("master");
    sync.register_slave_at("slave1", 0);

    sync.update_slave_at("slave1", 0, 0);
    sync.update_slave_at("slave1", 480, 10_000);

    let drift = drift_ms(&sync, "slave1");
    assert!(drift.abs() < 5.0, "Drift was {}", drift);
}

#[test]
fn smoothing_and_correction_values() {
    let mut sync = ClockSync::new(48000);
    sync.set_master("m");
    sync.register_slave_at("s", 0);
    // 10 ms pass, the slave moves 2480 samples: 2000 more than expected.
    sync.update_slave_at("s", 2480, 10_000);
    assert_eq!(sync.get_drift_samples("s"), Some(250));
    assert_eq!(sync.get_correction_readonly("s"), 48);
    assert_eq!(sync.get_correction("s"), 48);
    assert_eq!(sync.get_drift_samples("s"), Some(202));
    assert_eq!(sync.get_correction("s"), 0);
    // A slave behind the wall clock gets a negative correction.
    sync.register_slave_at("t", 0);
    sync.update_slave_at("t", 0, 50_000);
    assert_eq!(sync.get_drift_samples("t"), Some(-300));
    assert_eq!(sync.get_correction_readonly("t"), -48);
    sync.apply_correction("t");
    assert_eq!(sync.get_drift_samples("t"), Some(-252));
    assert_eq!(sync.get_correction_readonly("t"), 0);
}

#[test]
fn negative_smoothing_rounds_toward_zero() {
    let mut sync = ClockSync::new(1_000_000);
    sync.register_slave_at("s", 0);
    // One microsecond at 1 MHz is one sample; the slave did not move.
    sync.update_slave_at("s", 0, 1);
    assert_eq!(sync.get_drift_samples("s"), Some(0));
    sync.update_slave_at("s", 0, 10);
    assert_eq!(sync.get_drift_samples("s"), Some(-1));
}

#[test]
fn master_is_never_corrected() {
    let mut sync = ClockSync::new(48000);
    sync.register_slave_at("a", 0);
    sync.update_slave_at("a", 100_000, 1_000);
    assert_ne!(sync.get_correction_readonly("a"), 0);
    sync.set_master("a");
    assert!(sync.is_master("a"));
    assert_eq!(sync.get_correction("a"), 0);
    assert_eq!(sync.get_drift_samples("a"), None);
    sync.register_slave("a");
    assert_eq!(sync.get_drift_samples("a"), None);
    sync.update_master(1234);
    assert_eq!(sync.get_correction("a"), 0);
    assert!(!sync.is_master("b"));
}

#[test]
fn unknown_and_removed_slaves() {
    let mut sync = ClockSync::new(48000);
    assert_eq!(sync.get_correction("nobody"), 0);
    sync.update_slave("nobody", 5);
    assert_eq!(sync.get_drift_samples("nobody"), None);
    sync.register_slave("x");
    assert_eq!(sync.get_drift_samples("x"), Some(0));
    sync.remove_slave("x");
    assert_eq!(sync.get_drift_samples("x"), None);
}

#[test]
fn jittery_reports_stay_within_threshold() {
    let mut sync = ClockSync::new(48000);
    sync.set_master("m");
    sync.register_slave_at("s", 0);
    let jitter: [i64; 8] = [60, -70, 100, -110, 0, 119, -119, 30];
    let mut pos: i64 = 0;
    let mut now: u64 = 0;
    for step in 0..200 {
        now += 10_000;
        pos += 480 + jitter[step % 8];
        sync.update_slave_at("s", pos as u64, now);
        let c = sync.get_correction("s");
        assert!(c.abs() <= MAX_CORRECTION_SAMPLES);
        let d = sync.get_drift_samples("s").unwrap();
        assert!(d.abs() <= 240, "drift {} at step {}", d, step);
    }
}

#[test]
fn slave_converges_over_ten_seconds() {
    let mut sync = ClockSync::new(48000);
    sync.set_master("m");
    sync.register_slave_at("s", 0);
    // The slave's clock runs 0.1% fast: 480.48 samples every 10 ms.
    let mut now: u64 = 0;
    for step in 1..=1000u64 {
        now += 10_000;
        let pos = step * 48048 / 100;
        sync.update_slave_at("s", pos, now);
        let _ = sync.get_correction("s");
    }
    let drift = drift_ms(&sync, "s");
    assert!(drift.abs() <= 5.0, "drift {} ms", drift);
}

#[test]
fn all_drifts_are_listed() {
    let mut sync = ClockSync::new(48000);
    sync.set_master("m");
    sync.register_slave_at("a", 0);
    sync.register_slave_at("b", 0);
    sync.update_slave_at("b", 0, 50_000);
    let mut all = sync.get_all_drift_samples();
    all.sort();
    assert_eq!(all, vec![("a".to_string(), 0), ("b".to_string(), -300)]);
}

#[test]
fn first_endpoint_becomes_master() {
    let mut sync = ClockSync::new(48000);
    let ids = vec!["a".to_string(), "b".to_string(), "c".to_string()];
    sync.assign_roles(&ids);
    assert!(sync.is_master("a"));
    assert_eq!(sync.get_drift_samples("a"), None);
    assert_eq!(sync.get_drift_samples("b"), Some(0));
    assert_eq!(sync.get_drift_samples("c"), Some(0));
    sync.report_position("a", 100);
    assert_eq!(sync.get_drift_samples("b"), Some(0));
    sync.report_position("b", 10_000_000);
    assert!(sync.get_drift_samples("b").unwrap() > 0);
    assert_eq!(sync.get_correction("a"), 0);
}
