use wemux::buffer::{ReaderState, RingBuffer};
use wemux::capture::{capture_step, CaptureAction, CaptureEvent, CaptureState, CapturedFrames};
use wemux::format::AudioFormat;
use wemux::renderer::{
    frames_to_submit, plan_correction, render_read, silence_to_submit, RenderRead, SlicePlan,
};
use wemux::volume::{effective_volume_bits, VolumeLevel, FULL_VOLUME_BITS};

#[test]
fn silent_batch_reaches_ring_as_zeros() {
    let mut ring = RingBuffer::new(64);
    let mut reader = ReaderState::new(&ring);
    ring.write(&[5, 5, 5, 5]);
    let batch = CapturedFrames::new(vec![9u8; 16], 4, true, 4);
    assert!(batch.is_silent());
    assert!(batch.data().is_none());
    assert_eq!(batch.byte_count(), 16);
    assert_eq!(batch.deliver(&mut ring), 16);
    let mut out = [1u8; 20];
    assert_eq!(reader.read(&ring, &mut out), 20);
    assert_eq!(&out[..4], &[5, 5, 5, 5]);
    assert!(out[4..].iter().all(|b| *b == 0));
}

#[test]
fn sound_batch_is_copied() {
    let batch = CapturedFrames::new(vec![1, 2, 3, 4, 5, 6], 3, false, 2);
    assert_eq!(batch.num_frames(), 3);
    assert!(!batch.is_empty());
    assert_eq!(batch.data(), Some(&[1u8, 2, 3, 4, 5, 6][..]));
    let mut small = [0u8; 4];
    assert_eq!(batch.copy_to(&mut small), 4);
    assert_eq!(small, [1, 2, 3, 4]);
    let mut large = [9u8; 8];
    assert_eq!(batch.copy_to(&mut large), 6);
    assert_eq!(large, [1, 2, 3, 4, 5, 6, 9, 9]);
    let empty = CapturedFrames::empty();
    assert!(empty.is_empty());
    assert_eq!(empty.byte_count(), 0);
}

#[test]
fn correction_shapes_the_slice() {
    assert_eq!(plan_correction(800, 0, 8), SlicePlan { start: 0, end: 800, silence_frames: 0 });
    assert_eq!(plan_correction(800, 48, 8), SlicePlan { start: 384, end: 800, silence_frames: 0 });
    assert_eq!(plan_correction(100, 48, 8), SlicePlan { start: 100, end: 100, silence_frames: 0 });
    assert_eq!(plan_correction(800, -48, 8), SlicePlan { start: 0, end: 800, silence_frames: 48 });
    assert_eq!(plan_correction(8, i64::MIN, 8), SlicePlan { start: 0, end: 8, silence_frames: u32::MAX });
    assert_eq!(plan_correction(8, i64::MAX, 8), SlicePlan { start: 8, end: 8, silence_frames: 0 });
}

#[test]
fn endpoint_room_limits_submission() {
    assert_eq!(frames_to_submit(3840, 8, 1000, 200), 480);
    assert_eq!(frames_to_submit(3840, 8, 1000, 900), 100);
    assert_eq!(frames_to_submit(3843, 8, 1000, 0), 480);
    assert_eq!(frames_to_submit(3840, 8, 1000, 1200), 0);
    assert_eq!(silence_to_submit(480, 1000, 600), 400);
    assert_eq!(silence_to_submit(480, 1000, 100), 480);
    assert_eq!(silence_to_submit(480, 1000, 1000), 0);
}

#[test]
fn render_step_outcomes() {
    let mut ring = RingBuffer::new(16);
    let mut reader = ReaderState::new(&ring);
    let mut staging = [0u8; 4];
    assert_eq!(render_read(&mut reader, &ring, false, &mut staging), RenderRead::Underrun { overrun: false });
    ring.write(&[1, 2, 3, 4, 5, 6]);
    assert_eq!(render_read(&mut reader, &ring, false, &mut staging), RenderRead::Data { n: 4, overrun: false });
    assert_eq!(staging, [1, 2, 3, 4]);
    assert_eq!(render_read(&mut reader, &ring, true, &mut staging), RenderRead::Paused);
    assert_eq!(reader.position(), 6);
    ring.write(&[0u8; 20]);
    assert_eq!(render_read(&mut reader, &ring, false, &mut staging), RenderRead::Underrun { overrun: true });
    assert_eq!(reader.position(), ring.write_position());
}

#[test]
fn one_second_of_stereo_float_flows_through() {
    let format = AudioFormat { sample_rate: 48_000, channels: 2, bits_per_sample: 32, block_align: 8 };
    let mut ring = RingBuffer::new(format.buffer_size_for_ms(500));
    assert_eq!(ring.capacity(), 262_144);
    let mut reader = ReaderState::new(&ring);
    let mut staging = vec![0u8; format.buffer_size_for_ms(50)];
    let batch_frames: u32 = 480;
    let mut produced: Vec<u8> = Vec::new();
    let mut consumed: Vec<u8> = Vec::new();
    for k in 0..100u32 {
        let mut bytes: Vec<u8> = Vec::new();
        for f in 0..batch_frames {
            let t = (k * batch_frames + f) as f32 / 48_000.0;
            let v = (2.0 * std::f32::consts::PI * 1000.0 * t).sin();
            bytes.extend_from_slice(&v.to_le_bytes());
            bytes.extend_from_slice(&v.to_le_bytes());
        }
        produced.extend_from_slice(&bytes);
        let batch = CapturedFrames::new(bytes, batch_frames, false, 8);
        assert_eq!(batch.deliver(&mut ring), 3840);
        if let RenderRead::Data { n, overrun } = render_read(&mut reader, &ring, false, &mut staging) {
            assert!(!overrun);
            consumed.extend_from_slice(&staging[..n]);
        }
    }
    assert_eq!(produced.len(), 384_000);
    assert!(consumed.len() * 100 >= produced.len() * 98);
    assert_eq!(&produced[..consumed.len()], &consumed[..]);
}

#[test]
fn mute_publishes_silence_and_unmute_restores() {
    let level = VolumeLevel::new();
    assert_eq!(level.load_bits(), 1.0f32.to_bits());
    assert_eq!(FULL_VOLUME_BITS, 1.0f32.to_bits());
    let half = 0.5f32.to_bits();
    level.store_bits(effective_volume_bits(true, half));
    assert_eq!(f32::from_bits(level.load_bits()), 0.0);
    level.store_bits(effective_volume_bits(false, half));
    assert_eq!(f32::from_bits(level.load_bits()), 0.5);
}

#[test]
fn capture_worker_transitions() {
    assert_eq!(capture_step(CaptureState::Opening, CaptureEvent::Opened), (CaptureState::Running, CaptureAction::WaitForData));
    assert_eq!(capture_step(CaptureState::Opening, CaptureEvent::OpenFailed), (CaptureState::Failed, CaptureAction::BackOff));
    assert_eq!(capture_step(CaptureState::Failed, CaptureEvent::BackoffElapsed), (CaptureState::Reinitializing, CaptureAction::SettleAndReopen));
    assert_eq!(capture_step(CaptureState::Reinitializing, CaptureEvent::Opened), (CaptureState::Running, CaptureAction::WaitForData));
    assert_eq!(capture_step(CaptureState::Running, CaptureEvent::BatchReady), (CaptureState::Running, CaptureAction::DeliverBatch));
    assert_eq!(capture_step(CaptureState::Running, CaptureEvent::ReadFailed), (CaptureState::Running, CaptureAction::PauseBriefly));
    assert_eq!(capture_step(CaptureState::Running, CaptureEvent::TimedOut), (CaptureState::Running, CaptureAction::WaitForData));
    assert_eq!(capture_step(CaptureState::Running, CaptureEvent::ReinitializeRequested), (CaptureState::Reinitializing, CaptureAction::SettleAndReopen));
    assert_eq!(capture_step(CaptureState::Running, CaptureEvent::StopRequested), (CaptureState::Stopped, CaptureAction::Exit));
    assert_eq!(capture_step(CaptureState::Stopped, CaptureEvent::Opened), (CaptureState::Stopped, CaptureAction::Exit));
}

#[test]
fn long_silent_batch_arrives_whole() {
    let mut ring = RingBuffer::new(16_384);
    let mut reader = ReaderState::new(&ring);
    ring.write(&[3u8; 10]);
    let batch = CapturedFrames::new(Vec::new(), 1200, true, 8);
    let before = ring.write_position();
    assert_eq!(batch.deliver(&mut ring), 9600);
    assert_eq!(ring.write_position(), before + 9600);
    let mut out = vec![1u8; 9610];
    assert_eq!(reader.read(&ring, &mut out), 9610);
    assert!(out[..10].iter().all(|b| *b == 3));
    assert!(out[10..].iter().all(|b| *b == 0));
}

#[test]
fn batch_data_matches_the_capture() {
    let sound = CapturedFrames::new(vec![4, 5], 1, false, 2);
    assert_eq!(sound.data(), Some(&[4u8, 5][..]));
    let silent = CapturedFrames::new(vec![4, 5], 1, true, 2);
    assert_eq!(silent.data(), None);
}

#[test]
fn ring_holds_half_a_second() {
    let f = AudioFormat { sample_rate: 48_000, channels: 2, bits_per_sample: 32, block_align: 8 };
    assert_eq!(f.ring_buffer_bytes(), 192_000);
}
