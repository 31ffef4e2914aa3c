//! The master volume cell shared by the volume follower and the renderers.
use std::sync::atomic::{AtomicU32, Ordering};
use vstd::prelude::*;

verus! {

/// Bit pattern of the 32-bit float 1.0.
pub const FULL_VOLUME_BITS: u32 = 0x3f80_0000;

/// Bit pattern of the 32-bit float 0.0.
pub const SILENT_VOLUME_BITS: u32 = 0;

/// Effective master volume, stored as the bits of a 32-bit float so that
/// reads never tear. Staleness of one polling period is acceptable, so the
/// accesses are relaxed.
#[derive(Debug)]
pub struct VolumeLevel(AtomicU32);

impl VolumeLevel {
    /// A cell holding full volume.
    pub fn new() -> (r: VolumeLevel) {
        VolumeLevel(AtomicU32::new(FULL_VOLUME_BITS))
    }

    /// The stored bits.
    pub fn load_bits(&self) -> (r: u32) {
        self.0.load(Ordering::Relaxed)
    }

    /// Stores new bits.
    pub fn store_bits(&self, bits: u32) {
        self.0.store(bits, Ordering::Relaxed)
    }
}

/// Bits of the effective volume: silence when muted, else the scalar's.
pub fn effective_volume_bits(muted: bool, scalar_bits: u32) -> (r: u32)
    ensures
        muted ==> r == SILENT_VOLUME_BITS,
        !muted ==> r == scalar_bits,
{
    if muted {
        SILENT_VOLUME_BITS
    } else {
        scalar_bits
    }
}

} // verus!
