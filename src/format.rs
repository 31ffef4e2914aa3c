//! PCM stream format and the size arithmetic built on it.
use vstd::prelude::*;

verus! {

/// Duration of audio the distribution ring holds, in milliseconds.
pub const RING_BUFFER_MS: u32 = 500;

/// Format of a PCM stream.
#[derive(Clone, Copy, Debug, PartialEq, Eq)]
pub struct AudioFormat {
    /// Frames per second.
    pub sample_rate: u32,
    /// Samples per frame.
    pub channels: u16,
    /// Bits in one sample.
    pub bits_per_sample: u16,
    /// Bytes in one frame.
    pub block_align: u16,
}

impl AudioFormat {
    /// Bytes per second: frames per second times bytes per frame.
    pub open spec fn bytes_per_second_spec(&self) -> int {
        self.sample_rate * self.block_align
    }

    /// Bytes in `ms` milliseconds of audio, rounded down.
    pub open spec fn buffer_size_spec(&self, ms: u32) -> int {
        (self.bytes_per_second_spec() * ms) / 1000
    }

    /// Bytes per second of audio.
    pub fn bytes_per_second(&self) -> (r: u32)
        requires
            self.bytes_per_second_spec() <= u32::MAX,
        ensures
            r == self.bytes_per_second_spec(),
    {
        self.sample_rate * self.block_align as u32
    }

    /// Bytes in `ms` milliseconds of audio, rounded down.
    pub fn buffer_size_for_ms(&self, ms: u32) -> (r: usize)
        requires
            self.bytes_per_second_spec() <= u32::MAX,
            self.buffer_size_spec(ms) <= usize::MAX,
        ensures
            r == self.buffer_size_spec(ms),
    {
        let bps = self.bytes_per_second() as u64;
        assert(bps * (ms as int) <= (u32::MAX as int) * (u32::MAX as int)) by (nonlinear_arith)
            requires
                0 <= bps <= u32::MAX,
                0 <= ms <= u32::MAX,
        ;
        ((bps * ms as u64) / 1000) as usize
    }

    /// Whole frames in `bytes` bytes.
    pub fn bytes_to_frames(&self, bytes: usize) -> (r: u32)
        requires
            self.block_align > 0,
            (bytes as int) / (self.block_align as int) <= u32::MAX,
        ensures
            r == (bytes as int) / (self.block_align as int),
    {
        (bytes / self.block_align as usize) as u32
    }

    /// Bytes in `frames` frames.
    pub fn frames_to_bytes(&self, frames: u32) -> (r: usize)
        requires
            frames * self.block_align <= usize::MAX,
        ensures
            r == frames * self.block_align,
    {
        frames as usize * self.block_align as usize
    }

    /// Bytes to ask of the distribution ring: `RING_BUFFER_MS` of audio.
    pub fn ring_buffer_bytes(&self) -> (r: usize)
        requires
            self.bytes_per_second_spec() <= u32::MAX,
        ensures
            r == self.buffer_size_spec(RING_BUFFER_MS),
            r <= usize::MAX / 2 + 1,
    {
        assert(self.bytes_per_second_spec() * 500 <= (u32::MAX as int) * 500) by (nonlinear_arith)
            requires
                0 <= self.bytes_per_second_spec() <= u32::MAX,
        ;
        self.buffer_size_for_ms(RING_BUFFER_MS)
    }
}

} // verus!
