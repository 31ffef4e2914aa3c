//! Decisions of a renderer worker: what to take from the ring in one
//! iteration, how a clock correction shapes the slice, and how many frames
//! the endpoint can accept.
use crate::buffer::{ReaderState, RingBuffer};
use vstd::prelude::*;

verus! {

/// Lifecycle state of a renderer.
#[derive(Clone, Debug, PartialEq, Eq)]
pub enum RendererState {
    /// Not started.
    Idle,
    /// Rendering.
    Running,
    /// The last submission failed.
    Error(String),
    /// Reopening the endpoint.
    Reconnecting,
}

/// Outcome of the ring step of one renderer iteration.
#[derive(Clone, Copy, Debug, PartialEq, Eq)]
pub enum RenderRead {
    /// The renderer is paused: the reader was moved to the writer and the
    /// endpoint gets silence.
    Paused,
    /// Nothing to read: the endpoint gets silence. `overrun` tells that the
    /// reader had been lapped and was caught up first.
    Underrun { overrun: bool },
    /// `n` bytes were read into the staging area.
    Data { n: usize, overrun: bool },
}

/// The part of a staged slice to submit, and the silence to submit first.
#[derive(Clone, Copy, Debug, PartialEq, Eq)]
pub struct SlicePlan {
    /// First byte to submit.
    pub start: usize,
    /// One past the last byte to submit.
    pub end: usize,
    /// Frames of silence to submit before the slice.
    pub silence_frames: u32,
}

/// Slice plan for `read` staged bytes under clock correction `correction`
/// (in frames) with `block_align` bytes per frame. A positive correction
/// drops that many frames from the head of the slice; a negative one puts
/// that many frames of silence before it, at most `u32::MAX`.
pub open spec fn plan_spec(read: usize, correction: i64, block_align: u16) -> SlicePlan {
    if correction > 0 {
        let skip = correction * block_align;
        SlicePlan {
            start: (if skip < read {
                skip
            } else {
                read as int
            }) as usize,
            end: read,
            silence_frames: 0,
        }
    } else if correction < 0 {
        SlicePlan {
            start: 0,
            end: read,
            silence_frames: (if -correction < u32::MAX {
                -correction
            } else {
                u32::MAX as int
            }) as u32,
        }
    } else {
        SlicePlan { start: 0, end: read, silence_frames: 0 }
    }
}

/// Plans the slice to submit after a correction of `correction` frames.
pub fn plan_correction(read: usize, correction: i64, block_align: u16) -> (r: SlicePlan)
    ensures
        r == plan_spec(read, correction, block_align),
        r.start <= r.end == read,
{
    if correction > 0 {
        let c = correction as u64;
        assert((c as int) * (block_align as int) <= (u64::MAX as int) * (u16::MAX as int))
            by (nonlinear_arith)
            requires
                0 <= c <= u64::MAX,
                0 <= block_align <= u16::MAX,
        ;
        let skip: u128 = c as u128 * block_align as u128;
        let start: usize = if skip < read as u128 {
            skip as usize
        } else {
            read
        };
        SlicePlan { start, end: read, silence_frames: 0 }
    } else if correction < 0 {
        let silence_frames: u32 = if correction > -(u32::MAX as i64) {
            (-correction) as u32
        } else {
            u32::MAX
        };
        SlicePlan { start: 0, end: read, silence_frames }
    } else {
        SlicePlan { start: 0, end: read, silence_frames: 0 }
    }
}

/// One iteration's ring step. A paused renderer only moves its reader to
/// the writer. Otherwise a lapped reader is first caught up; then, if
/// anything is available, up to `staging.len()` bytes are read.
pub fn render_read(
    reader: &mut ReaderState,
    ring: &RingBuffer,
    paused: bool,
    staging: &mut [u8],
) -> (r: RenderRead)
    requires
        ring.wf(),
    ensures
        final(staging)@.len() == old(staging)@.len(),
        paused ==> r == RenderRead::Paused && final(reader).pos() as nat == ring.writer()
            && final(staging)@ == old(staging)@,
        !paused && ring.lagging(old(reader).pos()) ==> final(reader).pos() as nat == ring.writer()
            && r == (RenderRead::Underrun { overrun: true }) && final(staging)@ == old(staging)@,
        !paused && !ring.lagging(old(reader).pos()) && ring.available_spec(old(reader).pos()) == 0
            ==> r == (RenderRead::Underrun { overrun: false }) && final(reader).pos() == old(
            reader,
        ).pos() && final(staging)@ == old(staging)@,
        !paused && !ring.lagging(old(reader).pos()) && ring.available_spec(old(reader).pos()) > 0
            ==> (r matches RenderRead::Data { n, overrun } && !overrun && n as nat == (if (old(
            staging,
        )@.len() as nat) < ring.available_spec(old(reader).pos()) {
            old(staging)@.len() as nat
        } else {
            ring.available_spec(old(reader).pos())
        }) && (ring.in_sync(old(reader).pos()) ==> final(staging)@.subrange(0, n as int)
            == ring.written().subrange(old(reader).pos() as int, old(reader).pos() + n)
            && final(reader).pos() == old(reader).pos() + n)),
{
    if paused {
        reader.catch_up(ring);
        return RenderRead::Paused;
    }
    if reader.is_lagging(ring) {
        reader.catch_up(ring);
        // Caught up, the reader has nothing to read.
        return RenderRead::Underrun { overrun: true };
    }
    let available = reader.available(ring);
    if available == 0 {
        return RenderRead::Underrun { overrun: false };
    }
    let n = reader.read(ring, staging);
    RenderRead::Data { n, overrun: false }
}

/// Frames to hand the endpoint: the whole frames in `data_len` bytes, at
/// most the free room of its buffer of `buffer_frames` frames of which
/// `padding` are queued.
pub open spec fn frames_to_submit_spec(
    data_len: usize,
    block_align: u16,
    buffer_frames: u32,
    padding: u32,
) -> int {
    let room: int = if padding < buffer_frames {
        buffer_frames - padding
    } else {
        0
    };
    let frames: int = (data_len as int) / (block_align as int);
    if frames < room {
        frames
    } else {
        room
    }
}

/// How many frames of `data_len` bytes the endpoint can take now.
pub fn frames_to_submit(data_len: usize, block_align: u16, buffer_frames: u32, padding: u32) -> (r:
    u32)
    requires
        block_align > 0,
    ensures
        r == frames_to_submit_spec(data_len, block_align, buffer_frames, padding),
{
    let room: u32 = if padding < buffer_frames {
        buffer_frames - padding
    } else {
        0
    };
    let frames: usize = data_len / block_align as usize;
    if frames < room as usize {
        frames as u32
    } else {
        room
    }
}

/// Frames of silence the endpoint can take now, out of `frames` wanted.
pub fn silence_to_submit(frames: u32, buffer_frames: u32, padding: u32) -> (r: u32)
    ensures
        r == (if padding < buffer_frames {
            if frames < buffer_frames - padding {
                frames as int
            } else {
                buffer_frames - padding
            }
        } else {
            0
        }),
{
    if padding < buffer_frames {
        let room = buffer_frames - padding;
        if frames < room {
            frames
        } else {
            room
        }
    } else {
        0
    }
}

} // verus!
