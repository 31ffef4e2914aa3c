//! Single-producer, multi-consumer byte ring.
//!
//! The ring owns the bytes and the writer position; every reader keeps its
//! own read position. Positions grow monotonically and are reduced to an
//! index by masking with `capacity - 1`.
use vstd::arithmetic::power2::{
    lemma2_to64, lemma_pow2_pos, lemma_pow2_strictly_increases, lemma_pow2_unfold, pow2,
};
use vstd::bits::{lemma_usize_low_bits_mask_is_mod, low_bits_mask};
use vstd::arithmetic::div_mod::{lemma_mod_bound, lemma_mod_equivalence, lemma_small_mod};
use vstd::layout::unsigned_int_max_values;
use vstd::prelude::*;

verus! {

/// `c` is a power of two.
pub open spec fn is_power_of_two(c: nat) -> bool {
    exists|k: nat| pow2(k) == c
}

/// `c` is the smallest power of two that is at least `n`.
pub open spec fn is_next_power_of_two(n: nat, c: nat) -> bool {
    &&& is_power_of_two(c)
    &&& n <= c
    &&& (c == 1 || c / 2 < n)
}

/// Smallest power of two not below `n` (1 for 0 and 1), with its exponent.
fn next_power_of_two(n: usize) -> (r: (usize, Ghost<nat>))
    requires
        n <= usize::MAX / 2 + 1,
    ensures
        is_next_power_of_two(n as nat, r.0 as nat),
        r.0 as nat == pow2(r.1@),
        r.1@ < usize::BITS,
{
    let mut c: usize = 1;
    let ghost mut k: nat = 0;
    proof {
        lemma2_to64();
    }
    while c < n
        invariant
            c as nat == pow2(k),
            c >= 1,
            c == 1 || c / 2 < n,
            n <= usize::MAX / 2 + 1,
        decreases usize::MAX - c,
    {
        proof {
            lemma_pow2_unfold(k + 1);
        }
        c = c * 2;
        proof {
            k = k + 1;
        }
    }
    proof {
        unsigned_int_max_values();
        if k >= usize::BITS {
            if k > usize::BITS {
                lemma_pow2_strictly_increases(usize::BITS as nat, k);
            }
        }
        assert(pow2(k) == c as nat);
    }
    (c, Ghost(k))
}

/// Two positions less than `m` apart, the first one lower, fall on
/// different slots of a ring of `m` slots.
proof fn lemma_distinct_slots(a: int, b: int, m: int)
    requires
        0 <= a < b < a + m,
    ensures
        a % m != b % m,
{
    lemma_mod_equivalence(b, a, m);
    lemma_small_mod((b - a) as nat, m as nat);
}

/// A ring of `2^k` bytes.
pub struct RingBuffer {
    buffer: Vec<u8>,
    capacity: usize,
    mask: usize,
    write_pos: usize,
    log2: Ghost<nat>,
    history: Ghost<Seq<u8>>,
}

impl RingBuffer {
    /// Number of bytes the ring holds.
    pub closed spec fn cap(&self) -> nat {
        self.capacity as nat
    }

    /// The mask that reduces a position to an index.
    pub closed spec fn mask_value(&self) -> nat {
        self.mask as nat
    }

    /// Every byte ever written, in order.
    pub closed spec fn written(&self) -> Seq<u8> {
        self.history@
    }

    /// The writer position: how many bytes were ever written.
    pub open spec fn writer(&self) -> nat {
        self.written().len()
    }

    /// How far the reader at `r` is behind the writer, computed modulo the
    /// width of a position.
    pub open spec fn behind(&self, r: usize) -> nat {
        if r <= self.writer() {
            (self.writer() - r) as nat
        } else {
            (self.writer() + usize::MAX + 1 - r) as nat
        }
    }

    /// Bytes a reader at `r` can take: its distance to the writer, clamped to
    /// the capacity.
    pub open spec fn available_spec(&self, r: usize) -> nat {
        if self.behind(r) < self.cap() {
            self.behind(r)
        } else {
            self.cap()
        }
    }

    /// The reader at `r` was lapped: bytes it had not read were overwritten.
    pub open spec fn lagging(&self, r: usize) -> bool {
        self.behind(r) > self.cap()
    }

    /// The reader at `r` is at or behind the writer, and every byte from `r`
    /// to the writer is still held by the ring.
    pub open spec fn in_sync(&self, r: usize) -> bool {
        r <= self.writer() && self.writer() - r <= self.cap()
    }

    pub closed spec fn wf(&self) -> bool {
        &&& self.log2@ < usize::BITS
        &&& self.capacity as nat == pow2(self.log2@)
        &&& self.mask as nat == low_bits_mask(self.log2@)
        &&& self.buffer@.len() == self.capacity
        &&& self.write_pos as nat == self.history@.len()
        &&& forall|j: int|
            #![trigger self.history@[j]]
            0 <= j < self.history@.len() && self.history@.len() - self.capacity <= j
                ==> self.buffer@[j % (self.capacity as int)] == self.history@[j]
    }

    proof fn lemma_index(&self, x: usize)
        requires
            self.log2@ < usize::BITS,
            self.capacity as nat == pow2(self.log2@),
            self.mask as nat == low_bits_mask(self.log2@),
        ensures
            self.cap() > 0,
            self.mask_value() == self.cap() - 1,
            (x & self.mask) as int == (x as int) % (self.cap() as int),
            (x as int) % (self.cap() as int) < self.cap(),
    {
        lemma_pow2_pos(self.log2@);
        lemma_usize_low_bits_mask_is_mod(x, self.log2@);
        lemma_mod_bound(x as int, self.capacity as int);
    }

    /// A well-formed ring has a positive power-of-two capacity, and its
    /// mask is one less.
    pub proof fn lemma_capacity(&self)
        requires
            self.wf(),
        ensures
            is_power_of_two(self.cap()),
            self.cap() > 0,
            self.mask_value() == self.cap() - 1,
    {
        lemma_pow2_pos(self.log2@);
        assert(pow2(self.log2@) == self.cap());
    }

    /// Makes an empty ring whose capacity is `capacity` rounded up to a power
    /// of two.
    pub fn new(capacity: usize) -> (r: RingBuffer)
        requires
            capacity <= usize::MAX / 2 + 1,
        ensures
            r.wf(),
            is_next_power_of_two(capacity as nat, r.cap()),
            r.mask_value() == r.cap() - 1,
            r.written() == Seq::<u8>::empty(),
    {
        let (cap, k) = next_power_of_two(capacity);
        let buffer: Vec<u8> = vec![0u8; cap];
        let r = RingBuffer {
            buffer,
            capacity: cap,
            mask: cap - 1,
            write_pos: 0,
            log2: k,
            history: Ghost(Seq::empty()),
        };
        proof {
            lemma_pow2_pos(k@);
        }
        r
    }

    /// The capacity in bytes.
    pub fn capacity(&self) -> (r: usize)
        ensures
            r as nat == self.cap(),
    {
        self.capacity
    }

    /// The writer position.
    pub fn write_position(&self) -> (r: usize)
        requires
            self.wf(),
        ensures
            r as nat == self.writer(),
    {
        self.write_pos
    }

    /// Appends `data`; when it is longer than the ring, only its last
    /// `capacity` bytes stay observable. Never fails and never blocks.
    pub fn write(&mut self, data: &[u8]) -> (n: usize)
        requires
            old(self).wf(),
            old(self).writer() + data@.len() <= usize::MAX,
        ensures
            final(self).wf(),
            n == data@.len(),
            final(self).cap() == old(self).cap(),
            final(self).mask_value() == old(self).mask_value(),
            final(self).written() == old(self).written() + data@,
    {
        let w = self.write_pos;
        let ghost old_hist = self.history@;
        let ghost new_hist = old_hist + data@;
        let ghost cap = self.capacity as int;
        let len = data.len();
        let mut i: usize = 0;
        while i < len
            invariant
                0 <= i <= len,
                len == data@.len(),
                w as nat == old_hist.len(),
                new_hist == old_hist + data@,
                w + len <= usize::MAX,
                cap == self.capacity as int,
                self.log2@ < usize::BITS,
                self.capacity as nat == pow2(self.log2@),
                self.mask as nat == low_bits_mask(self.log2@),
                self.buffer@.len() == self.capacity,
                self.write_pos == w,
                self.history@ == old_hist,
                forall|j: int|
                    #![trigger new_hist[j]]
                    0 <= j < w + i && w + i - cap <= j ==> self.buffer@[j % cap] == new_hist[j],
            decreases len - i,
        {
            let pos = w + i;
            let idx = pos & self.mask;
            proof {
                self.lemma_index(pos);
            }
            self.buffer.set(idx, data[i]);
            proof {
                assert forall|j: int|
                    #![trigger new_hist[j]]
                    0 <= j < w + i + 1 && w + i + 1 - cap <= j implies self.buffer@[j % cap]
                    == new_hist[j] by {
                    if j < w + i {
                        lemma_distinct_slots(j, (w + i) as int, cap);
                    }
                }
            }
            i = i + 1;
        }
        self.write_pos = w + len;
        self.history = Ghost(new_hist);
        len
    }

    /// Copies up to `dst.len()` bytes from the reader position `read_pos`
    /// into `dst` and advances `read_pos` by the number copied, which is
    /// `min(dst.len(), writer - read_pos, capacity)`.
    pub fn read(&self, dst: &mut [u8], read_pos: &mut usize) -> (n: usize)
        requires
            self.wf(),
        ensures
            n as nat == (if (old(dst)@.len() as nat) < self.available_spec(*old(read_pos)) {
                old(dst)@.len() as nat
            } else {
                self.available_spec(*old(read_pos))
            }),
            *final(read_pos) == old(read_pos).wrapping_add(n),
            final(dst)@.len() == old(dst)@.len(),
            final(dst)@.subrange(n as int, old(dst)@.len() as int) == old(dst)@.subrange(
                n as int,
                old(dst)@.len() as int,
            ),
            self.in_sync(*old(read_pos)) ==> final(dst)@.subrange(0, n as int)
                == self.written().subrange(*old(read_pos) as int, *old(read_pos) + n),
            self.in_sync(*old(read_pos)) ==> *final(read_pos) == *old(read_pos) + n,
    {
        let w = self.write_pos;
        let r = *read_pos;
        let available = w.wrapping_sub(r);
        let mut to_read = dst.len();
        if available < to_read {
            to_read = available;
        }
        if self.capacity < to_read {
            to_read = self.capacity;
        }
        let ghost cap = self.capacity as int;
        let ghost hist = self.history@;
        let ghost dst0 = dst@;
        let mut i: usize = 0;
        while i < to_read
            invariant
                0 <= i <= to_read,
                to_read <= dst0.len(),
                to_read <= self.capacity,
                self.wf(),
                cap == self.capacity as int,
                hist == self.history@,
                w as nat == hist.len(),
                available as nat == self.behind(r),
                to_read <= available,
                dst@.len() == dst0.len(),
                forall|j: int| i <= j < dst0.len() ==> dst@[j] == dst0[j],
                forall|j: int|
                    0 <= j < i ==> #[trigger] dst@[j] == (if self.in_sync(r) {
                        hist[r + j]
                    } else {
                        dst@[j]
                    }),
            decreases to_read - i,
        {
            let pos = r.wrapping_add(i);
            let idx = pos & self.mask;
            proof {
                self.lemma_index(pos);
                if self.in_sync(r) {
                    assert(pos == r + i);
                    assert(hist[r + i] == self.buffer@[(r + i) % cap]);
                }
            }
            dst[i] = self.buffer[idx];
            i = i + 1;
        }
        proof {
            if self.in_sync(r) {
                assert(dst@.subrange(0, to_read as int) =~= hist.subrange(r as int, r + to_read));
            }
            assert(dst@.subrange(to_read as int, dst0.len() as int) =~= dst0.subrange(
                to_read as int,
                dst0.len() as int,
            ));
        }
        *read_pos = r.wrapping_add(to_read);
        to_read
    }

    /// Bytes available to the reader at `read_pos`, at most the capacity.
    pub fn available(&self, read_pos: usize) -> (r: usize)
        requires
            self.wf(),
        ensures
            r as nat == self.available_spec(read_pos),
            r <= self.cap(),
            read_pos <= self.writer() ==> (r == 0 <==> read_pos == self.writer()),
    {
        proof {
            self.lemma_capacity();
        }
        let available = self.write_pos.wrapping_sub(read_pos);
        if available < self.capacity {
            available
        } else {
            self.capacity
        }
    }

    /// The reader at `read_pos` was lapped by the writer.
    pub fn is_lagging(&self, read_pos: usize) -> (r: bool)
        requires
            self.wf(),
        ensures
            r == self.lagging(read_pos),
    {
        self.write_pos.wrapping_sub(read_pos) > self.capacity
    }

    /// Moves the reader at `read_pos` to the writer, dropping what it had not
    /// read.
    pub fn catch_up(&self, read_pos: &mut usize)
        requires
            self.wf(),
        ensures
            *final(read_pos) as nat == self.writer(),
    {
        *read_pos = self.write_pos;
    }
}

/// One reader's private position in a shared ring.
pub struct ReaderState {
    read_pos: usize,
}

impl ReaderState {
    /// The reader's position.
    pub closed spec fn pos(&self) -> usize {
        self.read_pos
    }

    /// A reader that starts at the ring's current writer position.
    pub fn new(buffer: &RingBuffer) -> (r: ReaderState)
        requires
            buffer.wf(),
        ensures
            r.pos() as nat == buffer.writer(),
    {
        ReaderState { read_pos: buffer.write_position() }
    }

    /// Reads from `buffer` into `buf`, advancing this reader.
    pub fn read(&mut self, buffer: &RingBuffer, buf: &mut [u8]) -> (n: usize)
        requires
            buffer.wf(),
        ensures
            n as nat == (if (old(buf)@.len() as nat) < buffer.available_spec(old(self).pos()) {
                old(buf)@.len() as nat
            } else {
                buffer.available_spec(old(self).pos())
            }),
            final(self).pos() == old(self).pos().wrapping_add(n),
            final(buf)@.len() == old(buf)@.len(),
            final(buf)@.subrange(n as int, old(buf)@.len() as int) == old(buf)@.subrange(
                n as int,
                old(buf)@.len() as int,
            ),
            buffer.in_sync(old(self).pos()) ==> final(buf)@.subrange(0, n as int)
                == buffer.written().subrange(old(self).pos() as int, old(self).pos() + n),
            buffer.in_sync(old(self).pos()) ==> final(self).pos() == old(self).pos() + n,
    {
        buffer.read(buf, &mut self.read_pos)
    }

    /// Bytes this reader can take now.
    pub fn available(&self, buffer: &RingBuffer) -> (r: usize)
        requires
            buffer.wf(),
        ensures
            r as nat == buffer.available_spec(self.pos()),
    {
        buffer.available(self.read_pos)
    }

    /// This reader was lapped by the writer.
    pub fn is_lagging(&self, buffer: &RingBuffer) -> (r: bool)
        requires
            buffer.wf(),
        ensures
            r == buffer.lagging(self.pos()),
    {
        buffer.is_lagging(self.read_pos)
    }

    /// Skips to the writer position.
    pub fn catch_up(&mut self, buffer: &RingBuffer)
        requires
            buffer.wf(),
        ensures
            final(self).pos() as nat == buffer.writer(),
    {
        buffer.catch_up(&mut self.read_pos)
    }

    /// The reader's position.
    pub fn position(&self) -> (r: usize)
        ensures
            r == self.pos(),
    {
        self.read_pos
    }
}

/// A reader that subscribed at `start` and has so far taken `consumed`, the
/// bytes written from `start` up to its position `pos`, and that now reads
/// `chunk` while in sync with a ring that has only been appended to since,
/// has taken exactly the bytes written from `start` up to its new position:
/// a prefix of everything written after it subscribed.
pub proof fn lemma_reads_follow_writes(
    earlier: RingBuffer,
    later: RingBuffer,
    start: nat,
    pos: usize,
    consumed: Seq<u8>,
    chunk: Seq<u8>,
)
    requires
        earlier.written().is_prefix_of(later.written()),
        start <= pos <= earlier.writer(),
        consumed == earlier.written().subrange(start as int, pos as int),
        later.in_sync(pos),
        pos + chunk.len() <= later.writer(),
        chunk == later.written().subrange(pos as int, pos + chunk.len()),
    ensures
        consumed + chunk == later.written().subrange(start as int, pos + chunk.len()),
        (consumed + chunk).is_prefix_of(later.written().subrange(start as int, later.writer() as int)),
{
    assert(consumed =~= later.written().subrange(start as int, pos as int));
    assert(consumed + chunk =~= later.written().subrange(start as int, pos + chunk.len()));
    assert((consumed + chunk) =~= later.written().subrange(start as int, later.writer() as int).subrange(
        0,
        (consumed + chunk).len() as int,
    ));
}

/// The chunks of `chunks` one after another.
pub open spec fn concat(chunks: Seq<Seq<u8>>) -> Seq<u8>
    decreases chunks.len(),
{
    if chunks.len() == 0 {
        Seq::empty()
    } else {
        concat(chunks.drop_last()) + chunks.last()
    }
}

/// The reads of a reader that subscribed at `start`: read `i` saw the ring
/// `rings[i]` and took `chunks[i]`, the bytes written from where the earlier
/// reads had brought the reader. The ring was only appended to between
/// reads.
pub open spec fn reads_in_sync(rings: Seq<RingBuffer>, start: int, chunks: Seq<Seq<u8>>) -> bool {
    &&& rings.len() == chunks.len()
    &&& 0 <= start
    &&& forall|i: int|
        0 <= i < rings.len() - 1 ==> (#[trigger] rings[i]).written().is_prefix_of(
            rings[i + 1].written(),
        )
    &&& forall|i: int|
        0 <= i < chunks.len() ==> {
            let p = start + concat(chunks.take(i)).len();
            &&& p + chunks[i].len() <= (#[trigger] rings[i]).writer()
            &&& chunks[i] == rings[i].written().subrange(p, p + chunks[i].len())
        }
}

/// Whatever a reader takes over any number of in-sync reads, put together,
/// is exactly the bytes written from where it subscribed: none skipped,
/// none repeated, a prefix of everything written since.
pub proof fn lemma_reader_stream(rings: Seq<RingBuffer>, start: int, chunks: Seq<Seq<u8>>)
    requires
        reads_in_sync(rings, start, chunks),
        chunks.len() > 0,
    ensures
        start + concat(chunks).len() <= rings.last().writer(),
        concat(chunks) == rings.last().written().subrange(start, start + concat(chunks).len()),
    decreases chunks.len(),
{
    let n = chunks.len() - 1;
    assert(chunks.take(n) =~= chunks.drop_last());
    let p = start + concat(chunks.take(n)).len();
    assert(p + chunks[n].len() <= rings[n].writer());
    if n == 0 {
        assert(concat(chunks.drop_last()) =~= Seq::<u8>::empty());
        assert(concat(chunks) =~= chunks[0]);
    } else {
        let r2 = rings.drop_last();
        let c2 = chunks.drop_last();
        assert forall|i: int| 0 <= i < r2.len() - 1 implies (#[trigger] r2[i]).written().is_prefix_of(
            r2[i + 1].written(),
        ) by {
            assert(rings[i].written().is_prefix_of(rings[i + 1].written()));
        }
        assert forall|i: int| 0 <= i < c2.len() implies {
            let q = start + concat(c2.take(i)).len();
            &&& q + c2[i].len() <= (#[trigger] r2[i]).writer()
            &&& c2[i] == r2[i].written().subrange(q, q + c2[i].len())
        } by {
            assert(c2.take(i) =~= chunks.take(i));
            assert(rings[i] == r2[i]);
        }
        lemma_reader_stream(r2, start, c2);
        let w1 = rings[n - 1].written();
        let w2 = rings[n].written();
        assert(w1.is_prefix_of(w2));
        assert(concat(c2) =~= w2.subrange(start, p));
        assert(concat(chunks) =~= w2.subrange(start, p + chunks[n].len()));
    }
}

} // verus!
