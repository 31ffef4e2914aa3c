//! One batch of captured frames, and its delivery into the ring.
use crate::buffer::RingBuffer;
use vstd::prelude::*;
use vstd::slice::slice_subrange;

verus! {

/// Frames taken from the host's capture buffer in one claim.
#[derive(Debug)]
pub struct CapturedFrames {
    data: Option<Vec<u8>>,
    num_frames: u32,
    is_silent: bool,
    block_align: u16,
}

/// Bytes of silence appended to the ring in one write.
const SILENCE_CHUNK: usize = 4096;

/// `n` zero bytes.
pub open spec fn zeros(n: nat) -> Seq<u8> {
    Seq::new(n, |i: int| 0u8)
}

impl CapturedFrames {
    pub closed spec fn frames(&self) -> u32 {
        self.num_frames
    }

    pub closed spec fn silent(&self) -> bool {
        self.is_silent
    }

    pub closed spec fn align(&self) -> u16 {
        self.block_align
    }

    /// The captured bytes; absent for a silent batch.
    pub closed spec fn bytes(&self) -> Option<Seq<u8>> {
        match self.data {
            Some(v) => Some(v@),
            None => None,
        }
    }

    /// Bytes the batch stands for.
    pub open spec fn byte_count_spec(&self) -> nat {
        (self.frames() * self.align()) as nat
    }

    /// The bytes the batch delivers: zeros when silent, else what was
    /// captured.
    pub open spec fn content(&self) -> Seq<u8> {
        match self.bytes() {
            Some(b) => b,
            None => zeros(self.byte_count_spec()),
        }
    }

    pub closed spec fn wf(&self) -> bool {
        &&& self.num_frames * self.block_align <= usize::MAX
        &&& (self.data is None <==> self.is_silent)
        &&& self.data is Some ==> self.data->0@.len() == self.num_frames * self.block_align
    }

    /// A batch of `num_frames` frames of `block_align` bytes. A silent batch
    /// keeps no bytes; a batch with sound keeps `data`, which holds exactly
    /// its frames.
    pub fn new(data: Vec<u8>, num_frames: u32, is_silent: bool, block_align: u16) -> (r:
        CapturedFrames)
        requires
            num_frames * block_align <= usize::MAX,
            is_silent || data@.len() == num_frames * block_align,
        ensures
            r.wf(),
            r.frames() == num_frames,
            r.silent() == is_silent,
            r.align() == block_align,
            r.content().len() == num_frames * block_align,
            r.bytes() == (if is_silent {
                None::<Seq<u8>>
            } else {
                Some(data@)
            }),
            !is_silent ==> r.content() == data@,
            is_silent ==> r.content() == zeros((num_frames * block_align) as nat),
    {
        let data = if is_silent {
            None
        } else {
            Some(data)
        };
        CapturedFrames { data, num_frames, is_silent, block_align }
    }

    /// A batch of no frames.
    pub fn empty() -> (r: CapturedFrames)
        ensures
            r.wf(),
            r.frames() == 0,
            r.content().len() == 0,
    {
        CapturedFrames { data: None, num_frames: 0, is_silent: true, block_align: 0 }
    }

    /// The captured bytes; `None` for a silent batch.
    pub fn data(&self) -> (r: Option<&[u8]>)
        ensures
            match r {
                Some(s) => self.bytes() == Some(s@),
                None => self.bytes() is None,
            },
    {
        match &self.data {
            Some(v) => Some(v.as_slice()),
            None => None,
        }
    }

    /// Number of frames.
    pub fn num_frames(&self) -> (r: u32)
        ensures
            r == self.frames(),
    {
        self.num_frames
    }

    /// The host flagged the batch silent.
    pub fn is_silent(&self) -> (r: bool)
        ensures
            r == self.silent(),
    {
        self.is_silent
    }

    /// The batch holds no frames.
    pub fn is_empty(&self) -> (r: bool)
        ensures
            r == (self.frames() == 0),
    {
        self.num_frames == 0
    }

    /// Bytes the batch stands for.
    pub fn byte_count(&self) -> (r: usize)
        requires
            self.wf(),
        ensures
            r == self.byte_count_spec(),
    {
        self.num_frames as usize * self.block_align as usize
    }

    /// Copies the first `min(dest.len(), byte_count)` bytes of the batch
    /// into `dest`, zeros for a silent batch, and returns how many.
    pub fn copy_to(&self, dest: &mut [u8]) -> (n: usize)
        requires
            self.wf(),
        ensures
            n == (if old(dest)@.len() < self.byte_count_spec() {
                old(dest)@.len()
            } else {
                self.byte_count_spec()
            }),
            final(dest)@.len() == old(dest)@.len(),
            final(dest)@.subrange(0, n as int) == self.content().subrange(0, n as int),
            final(dest)@.subrange(n as int, old(dest)@.len() as int) == old(dest)@.subrange(
                n as int,
                old(dest)@.len() as int,
            ),
    {
        let total = self.byte_count();
        let count = if dest.len() < total {
            dest.len()
        } else {
            total
        };
        let ghost d0 = dest@;
        let ghost content = self.content();
        let mut i: usize = 0;
        while i < count
            invariant
                self.wf(),
                0 <= i <= count,
                count <= d0.len(),
                count <= total,
                total == self.byte_count_spec(),
                content == self.content(),
                content.len() == total,
                dest@.len() == d0.len(),
                forall|j: int| 0 <= j < i ==> #[trigger] dest@[j] == content[j],
                forall|j: int| i <= j < d0.len() ==> #[trigger] dest@[j] == d0[j],
            decreases count - i,
        {
            let b: u8 = match &self.data {
                Some(v) => v[i],
                None => 0,
            };
            dest[i] = b;
            i = i + 1;
        }
        proof {
            assert(dest@.subrange(0, count as int) =~= content.subrange(0, count as int));
            assert(dest@.subrange(count as int, d0.len() as int) =~= d0.subrange(
                count as int,
                d0.len() as int,
            ));
        }
        count
    }

    /// Appends the whole batch to the ring: the captured bytes, or zeros of
    /// the same length for a silent batch. Returns how many bytes were
    /// appended.
    pub fn deliver(&self, ring: &mut RingBuffer) -> (n: usize)
        requires
            self.wf(),
            old(ring).wf(),
            old(ring).writer() + self.byte_count_spec() <= usize::MAX,
        ensures
            n == self.byte_count_spec(),
            final(ring).wf(),
            final(ring).cap() == old(ring).cap(),
            final(ring).written() == old(ring).written() + self.content(),
    {
        let total = self.byte_count();
        match &self.data {
            Some(v) => {
                ring.write(v.as_slice());
            },
            None => {
                let zero_chunk: Vec<u8> = vec![0u8; SILENCE_CHUNK];
                let mut done: usize = 0;
                while done < total
                    invariant
                        self.wf(),
                        self.data is None,
                        total == self.byte_count_spec(),
                        0 <= done <= total,
                        zero_chunk@.len() == SILENCE_CHUNK,
                        forall|q: int| 0 <= q < zero_chunk@.len() ==> zero_chunk@[q] == 0u8,
                        ring.wf(),
                        ring.cap() == old(ring).cap(),
                        old(ring).writer() + total <= usize::MAX,
                        ring.written() == old(ring).written() + zeros(done as nat),
                    decreases total - done,
                {
                    let k = if total - done < SILENCE_CHUNK {
                        total - done
                    } else {
                        SILENCE_CHUNK
                    };
                    let piece = slice_subrange(zero_chunk.as_slice(), 0, k);
                    ring.write(piece);
                    proof {
                        assert(piece@ =~= zeros(k as nat));
                        assert(zeros(done as nat) + zeros(k as nat) =~= zeros((done + k) as nat));
                    }
                    done = done + k;
                }
            },
        }
        proof {
            assert(self.content().len() == total);
        }
        total
    }
}

/// What a silent batch delivers is zeros of its full length,
/// indistinguishable from captured zeros.
pub proof fn lemma_silence_is_zeros(batch: CapturedFrames)
    requires
        batch.wf(),
        batch.silent(),
    ensures
        batch.content() == zeros(batch.byte_count_spec()),
{
}

/// State of the capture worker.
#[derive(Clone, Copy, Debug, PartialEq, Eq, Structural)]
pub enum CaptureState {
    /// Opening the first stream.
    Opening,
    /// Capturing from an open stream.
    Running,
    /// Reopening on the current default output.
    Reinitializing,
    /// An open failed; waiting out the back-off.
    Failed,
    /// Stopped for good.
    Stopped,
}

/// What happened to the capture worker.
#[derive(Clone, Copy, Debug, PartialEq, Eq, Structural)]
pub enum CaptureEvent {
    /// A stream was opened and started.
    Opened,
    /// Opening or starting a stream failed.
    OpenFailed,
    /// The wait for data ended with a batch.
    BatchReady,
    /// The wait for data ended without one.
    TimedOut,
    /// Taking a batch from the host failed.
    ReadFailed,
    /// The device monitor asked for a reopen.
    ReinitializeRequested,
    /// The back-off after a failure is over.
    BackoffElapsed,
    /// The global stop flag is set.
    StopRequested,
}

/// What the capture worker does next.
#[derive(Clone, Copy, Debug, PartialEq, Eq, Structural)]
pub enum CaptureAction {
    /// Open a stream on the default output.
    Open,
    /// Wait up to 100 ms for data.
    WaitForData,
    /// Deliver the batch to the ring, then wait for data.
    DeliverBatch,
    /// Pause 10 ms, then wait for data.
    PauseBriefly,
    /// Stop the stream, let the host settle 100 ms, then open a new one.
    SettleAndReopen,
    /// Wait 500 ms before trying again.
    BackOff,
    /// Stop the stream and end the worker.
    Exit,
}

/// The capture worker's transitions.
pub open spec fn capture_transition(s: CaptureState, e: CaptureEvent) -> (CaptureState, CaptureAction) {
    match (s, e) {
        (CaptureState::Stopped, _) => (CaptureState::Stopped, CaptureAction::Exit),
        (_, CaptureEvent::StopRequested) => (CaptureState::Stopped, CaptureAction::Exit),
        (_, CaptureEvent::OpenFailed) => (CaptureState::Failed, CaptureAction::BackOff),
        (CaptureState::Failed, CaptureEvent::BackoffElapsed) => (
            CaptureState::Reinitializing,
            CaptureAction::SettleAndReopen,
        ),
        (CaptureState::Failed, _) => (CaptureState::Failed, CaptureAction::BackOff),
        (_, CaptureEvent::ReinitializeRequested) => (
            CaptureState::Reinitializing,
            CaptureAction::SettleAndReopen,
        ),
        (CaptureState::Opening, CaptureEvent::Opened) => (CaptureState::Running, CaptureAction::WaitForData),
        (CaptureState::Reinitializing, CaptureEvent::Opened) => (
            CaptureState::Running,
            CaptureAction::WaitForData,
        ),
        (CaptureState::Opening, _) => (CaptureState::Opening, CaptureAction::Open),
        (CaptureState::Reinitializing, _) => (
            CaptureState::Reinitializing,
            CaptureAction::SettleAndReopen,
        ),
        (CaptureState::Running, CaptureEvent::BatchReady) => (CaptureState::Running, CaptureAction::DeliverBatch),
        (CaptureState::Running, CaptureEvent::ReadFailed) => (CaptureState::Running, CaptureAction::PauseBriefly),
        (CaptureState::Running, _) => (CaptureState::Running, CaptureAction::WaitForData),
    }
}

/// The capture worker's next state and action after `event` in `state`.
pub fn capture_step(state: CaptureState, event: CaptureEvent) -> (r: (CaptureState, CaptureAction))
    ensures
        r == capture_transition(state, event),
{
    match (state, event) {
        (CaptureState::Stopped, _) => (CaptureState::Stopped, CaptureAction::Exit),
        (_, CaptureEvent::StopRequested) => (CaptureState::Stopped, CaptureAction::Exit),
        (_, CaptureEvent::OpenFailed) => (CaptureState::Failed, CaptureAction::BackOff),
        (CaptureState::Failed, CaptureEvent::BackoffElapsed) => (
            CaptureState::Reinitializing,
            CaptureAction::SettleAndReopen,
        ),
        (CaptureState::Failed, _) => (CaptureState::Failed, CaptureAction::BackOff),
        (_, CaptureEvent::ReinitializeRequested) => (
            CaptureState::Reinitializing,
            CaptureAction::SettleAndReopen,
        ),
        (CaptureState::Opening, CaptureEvent::Opened) => (CaptureState::Running, CaptureAction::WaitForData),
        (CaptureState::Reinitializing, CaptureEvent::Opened) => (
            CaptureState::Running,
            CaptureAction::WaitForData,
        ),
        (CaptureState::Opening, _) => (CaptureState::Opening, CaptureAction::Open),
        (CaptureState::Reinitializing, _) => (
            CaptureState::Reinitializing,
            CaptureAction::SettleAndReopen,
        ),
        (CaptureState::Running, CaptureEvent::BatchReady) => (CaptureState::Running, CaptureAction::DeliverBatch),
        (CaptureState::Running, CaptureEvent::ReadFailed) => (CaptureState::Running, CaptureAction::PauseBriefly),
        (CaptureState::Running, _) => (CaptureState::Running, CaptureAction::WaitForData),
    }
}

/// The capture worker ends only on a stop request, and once stopped stays
/// stopped; failures to open or read never end it.
pub proof fn lemma_capture_exits_only_on_stop(s: CaptureState, e: CaptureEvent)
    ensures
        (capture_transition(s, e).1 == CaptureAction::Exit) <==> (s == CaptureState::Stopped || e
            == CaptureEvent::StopRequested),
        (capture_transition(s, e).0 == CaptureState::Stopped) <==> (s == CaptureState::Stopped || e
            == CaptureEvent::StopRequested),
        e == CaptureEvent::OpenFailed && s != CaptureState::Stopped ==> capture_transition(s, e)
            == (CaptureState::Failed, CaptureAction::BackOff),
{
}

} // verus!
