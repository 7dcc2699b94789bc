//! What the three stress workers decide in each round: how much to compute,
//! which byte to touch, where to write. The caller runs the rounds until it
//! is told to stop, publishes the counts, sleeps and writes as it is told.

use vstd::prelude::*;
use vstd::wrapping::u64_specs;
use crate::rng::{low32, xorshift, Rng};

verus! {

/// Least number of operations in one burst of the CPU worker.
pub const BURST_MIN: u64 = 5000;

/// Number of different burst sizes.
pub const BURST_SPAN: u32 = 15000;

/// One burst in `CPU_PAUSE_ODDS` is followed by a short sleep.
pub const CPU_PAUSE_ODDS: u32 = 1200;

/// Bytes per buffer of the memory worker.
pub const MEM_CHUNK: usize = 8 * 1024 * 1024;

/// Distance of the bytes that are written to commit a fresh buffer.
pub const PAGE: usize = 4096;

/// One touch in `MEM_PAUSE_ODDS` is followed by a short sleep.
pub const MEM_PAUSE_ODDS: u32 = 1000;

/// Bytes per megabyte.
pub const MIB: u64 = 1024 * 1024;

/// Least size of a disk block, and the granularity of sizes and offsets.
pub const BLOCK_MIN: u64 = 4096;

/// Greatest size of a disk block.
pub const BLOCK_MAX: u64 = 4 * 1024 * 1024;

/// Least size of the backing file.
pub const FILE_MIN: u64 = 4 * 1024 * 1024;

/// One write in `FLUSH_ODDS` is followed by a flush.
pub const FLUSH_ODDS: u32 = 200;

/// One operation of the CPU worker: multiply, add, rotate.
pub open spec fn mix(x: u64) -> u64 {
    let y = u64_specs::wrapping_add(u64_specs::wrapping_mul(x, 1664525), 1013904223);
    (y << 5) | (y >> 59)
}

/// `n` operations in a row.
pub open spec fn mix_n(x: u64, n: nat) -> u64
    decreases n,
{
    if n == 0 {
        x
    } else {
        mix(mix_n(x, (n - 1) as nat))
    }
}

/// Size of the burst that the draw `r` selects.
pub open spec fn burst_size(r: u32) -> u64 {
    (BURST_MIN + r % BURST_SPAN) as u64
}

/// What one round of the CPU worker did.
#[derive(Clone, Copy, Debug, PartialEq, Eq)]
pub struct CpuStep {
    /// Operations executed, to be added to the worker's counter.
    pub ops: u64,
    /// Whether the worker should sleep briefly before the next round.
    pub pause: bool,
}

/// CPU-burn worker: bursts of integer operations of varying size.
pub struct CpuWorker {
    rng: Rng,
    acc: u64,
}

impl CpuWorker {
    /// State of the generator.
    pub closed spec fn rng_state(&self) -> u64 {
        self.rng@
    }

    /// The value that the operations work on.
    pub closed spec fn acc(&self) -> u64 {
        self.acc
    }

    /// Well-formedness: the generator's state is not zero.
    pub closed spec fn wf(&self) -> bool {
        self.rng.wf()
    }

    /// A worker whose generator starts from `seed`.
    pub fn new(seed: u64) -> (w: Self)
        ensures
            w.wf(),
            w.rng_state() == crate::rng::initial_state(seed),
            w.acc() == 0,
    {
        CpuWorker { rng: Rng::new(seed), acc: 0 }
    }

    /// One round: draws a burst size, executes that many operations, and
    /// draws whether to pause.
    pub fn step(&mut self) -> (r: CpuStep)
        requires
            old(self).wf(),
        ensures
            final(self).wf(),
            r.ops == burst_size(low32(xorshift(old(self).rng_state()))),
            BURST_MIN <= r.ops < BURST_MIN + BURST_SPAN,
            final(self).acc() == mix_n(old(self).acc(), r.ops as nat),
            final(self).rng_state() == xorshift(xorshift(old(self).rng_state())),
            r.pause == (low32(final(self).rng_state()) % CPU_PAUSE_ODDS == 0),
    {
        let draw: u32 = self.rng.next_u32();
        let burst: u64 = BURST_MIN + (draw % BURST_SPAN) as u64;
        let ghost start = self.acc;
        let mut x: u64 = self.acc;
        let mut i: u64 = 0;
        while i < burst
            invariant
                i <= burst,
                x == mix_n(start, i as nat),
            decreases burst - i,
        {
            let y: u64 = x.wrapping_mul(1664525).wrapping_add(1013904223);
            x = (y << 5) | (y >> 59);
            i = i + 1;
        }
        self.acc = x;
        let pause: bool = self.rng.next_u32() % CPU_PAUSE_ODDS == 0;
        CpuStep { ops: burst, pause }
    }

    /// The value computed so far; handing it to an opaque sink keeps the
    /// operations from being optimised away.
    pub fn value(&self) -> (v: u64)
        ensures
            v == self.acc(),
    {
        self.acc
    }
}

/// A fresh buffer of `size` bytes after the commit pass: one in every
/// `PAGE`-th byte, zero elsewhere.
pub open spec fn committed(size: nat) -> Seq<u8> {
    Seq::new(
        size,
        |i: int|
            if i % (PAGE as int) == 0 {
                1u8
            } else {
                0u8
            },
    )
}

/// Bytes in all buffers together.
pub open spec fn total_len(buffers: Seq<Seq<u8>>) -> nat
    decreases buffers.len(),
{
    if buffers.len() == 0 {
        0
    } else {
        total_len(buffers.drop_last()) + buffers.last().len()
    }
}

/// The target in bytes for a target in megabytes, cut off at what 64 bits
/// can count.
pub open spec fn target_bytes_of(target_mb: u64) -> u64 {
    if target_mb * MIB > u64::MAX {
        u64::MAX
    } else {
        (target_mb * MIB) as u64
    }
}

/// Size of the buffer allocated next.
pub open spec fn next_chunk(allocated: u64, target: u64) -> nat {
    if target - allocated < MEM_CHUNK {
        (target - allocated) as nat
    } else {
        MEM_CHUNK as nat
    }
}

/// The byte `b` after one touch.
pub open spec fn touched(b: u8) -> u8 {
    if b == 255 {
        0
    } else {
        (b + 1) as u8
    }
}

/// What one round of the memory worker did.
#[derive(Clone, Copy, Debug, PartialEq, Eq)]
pub enum MemStep {
    /// There is nothing to touch: sleep for the idle period.
    Idle,
    /// One byte was changed; `pause` asks for a short sleep.
    Touched { pause: bool },
}

/// Memory-churn worker: buffers up to a target size, then random single-byte
/// changes.
pub struct MemWorker {
    buffers: Vec<Vec<u8>>,
    allocated: u64,
    target: u64,
    rng: Rng,
}

impl MemWorker {
    /// Contents of the buffers.
    pub closed spec fn buffers(&self) -> Seq<Seq<u8>> {
        Seq::new(self.buffers@.len(), |i: int| self.buffers@[i]@)
    }

    /// Bytes allocated so far.
    pub closed spec fn allocated(&self) -> u64 {
        self.allocated
    }

    /// Bytes to allocate in all.
    pub closed spec fn target(&self) -> u64 {
        self.target
    }

    /// State of the generator.
    pub closed spec fn rng_state(&self) -> u64 {
        self.rng@
    }

    /// Well-formedness: no buffer is empty, `allocated` counts their bytes
    /// and does not exceed the target.
    pub closed spec fn wf(&self) -> bool {
        &&& self.rng.wf()
        &&& self.allocated <= self.target
        &&& self.allocated as nat == total_len(self.buffers())
        &&& forall|i: int|
            0 <= i < self.buffers@.len() ==> 1 <= (#[trigger] self.buffers@[i])@.len() <= MEM_CHUNK
    }

    /// A worker with a target of zero bytes never holds a buffer.
    pub proof fn lemma_zero_target_no_buffers(&self)
        requires
            self.wf(),
            self.target() == 0,
        ensures
            self.buffers().len() == 0,
            self.allocated() == 0,
    {
        let b = self.buffers();
        if b.len() > 0 {
            assert(b.last() == self.buffers@[b.len() - 1]@);
            assert(total_len(b) >= b.last().len());
        }
    }

    /// A worker that holds nothing yet and is to hold `target_mb` megabytes.
    pub fn new(target_mb: u64, seed: u64) -> (w: Self)
        ensures
            w.wf(),
            w.target() == target_bytes_of(target_mb),
            w.allocated() == 0,
            w.buffers().len() == 0,
            w.rng_state() == crate::rng::initial_state(seed),
    {
        let target: u64 = match target_mb.checked_mul(MIB) {
            Some(t) => t,
            None => u64::MAX,
        };
        let w = MemWorker { buffers: Vec::new(), allocated: 0, target, rng: Rng::new(seed) };
        assert(w.buffers() =~= Seq::<Seq<u8>>::empty());
        w
    }

    /// Whether the target has not been reached yet.
    pub fn needs_allocation(&self) -> (r: bool)
        requires
            self.wf(),
        ensures
            r == (self.allocated() < self.target()),
    {
        self.allocated < self.target
    }

    /// First phase, one buffer at a time: allocates the next buffer, of
    /// `MEM_CHUNK` bytes or of what is missing if that is less, and writes to
    /// every `PAGE`-th byte of it. Does nothing once the target is reached.
    /// Returns whether a buffer was added.
    pub fn allocate_next(&mut self) -> (added: bool)
        requires
            old(self).wf(),
        ensures
            final(self).wf(),
            final(self).target() == old(self).target(),
            final(self).rng_state() == old(self).rng_state(),
            added == (old(self).allocated() < old(self).target()),
            added ==> {
                &&& final(self).buffers() == old(self).buffers().push(
                    committed(next_chunk(old(self).allocated(), old(self).target())),
                )
                &&& final(self).allocated() == old(self).allocated() + next_chunk(
                    old(self).allocated(),
                    old(self).target(),
                )
            },
            !added ==> {
                &&& final(self).buffers() == old(self).buffers()
                &&& final(self).allocated() == old(self).allocated()
            },
    {
        if self.allocated >= self.target {
            return false;
        }
        let missing: u64 = self.target - self.allocated;
        let size: usize = if missing < MEM_CHUNK as u64 {
            missing as usize
        } else {
            MEM_CHUNK
        };
        let mut buf: Vec<u8> = vec![0u8; size];
        let mut i: usize = 0;
        while i < size
            invariant
                buf@.len() == size,
                size <= MEM_CHUNK,
                i <= size + PAGE,
                i % PAGE == 0,
                forall|k: int|
                    0 <= k < size ==> #[trigger] buf@[k] == (if k < i && k % (PAGE as int) == 0 {
                        1u8
                    } else {
                        0u8
                    }),
            decreases size + PAGE - i,
        {
            buf.set(i, 1);
            i = i + PAGE;
        }
        assert(buf@ =~= committed(size as nat));
        let ghost before = self.buffers();
        self.buffers.push(buf);
        self.allocated = self.allocated + size as u64;
        proof {
            let after = self.buffers();
            assert(after =~= before.push(committed(size as nat)));
            assert(after.drop_last() =~= before);
        }
        true
    }

    /// Second phase, one round: with no buffer, nothing happens and the
    /// caller is to sleep; otherwise a random byte of a random buffer is
    /// incremented, wrapping around.
    pub fn step(&mut self) -> (r: MemStep)
        requires
            old(self).wf(),
        ensures
            final(self).wf(),
            final(self).target() == old(self).target(),
            final(self).allocated() == old(self).allocated(),
            old(self).buffers().len() == 0 ==> {
                &&& r == MemStep::Idle
                &&& final(self).buffers() == old(self).buffers()
                &&& final(self).rng_state() == old(self).rng_state()
            },
            old(self).buffers().len() > 0 ==> {
                let s1 = xorshift(old(self).rng_state());
                let s2 = xorshift(s1);
                let s3 = xorshift(s2);
                let idx = (low32(s1) as int) % (old(self).buffers().len() as int);
                let off = (low32(s2) as int) % (old(self).buffers()[idx].len() as int);
                &&& final(self).rng_state() == s3
                &&& r == (MemStep::Touched { pause: low32(s3) % MEM_PAUSE_ODDS == 0 })
                &&& final(self).buffers() == old(self).buffers().update(
                    idx,
                    old(self).buffers()[idx].update(off, touched(old(self).buffers()[idx][off])),
                )
            },
    {
        if self.buffers.len() == 0 {
            return MemStep::Idle;
        }
        let ghost before = self.buffers();
        let idx: usize = (self.rng.next_u32() as usize) % self.buffers.len();
        let len: usize = self.buffers[idx].len();
        let off: usize = (self.rng.next_u32() as usize) % len;
        let old_byte: u8 = self.buffers[idx][off];
        self.buffers[idx][off] = old_byte.wrapping_add(1);
        let pause: bool = self.rng.next_u32() % MEM_PAUSE_ODDS == 0;
        proof {
            let after = self.buffers();
            let want = before.update(
                idx as int,
                before[idx as int].update(off as int, touched(before[idx as int][off as int])),
            );
            assert(after =~= want);
            lemma_total_len_update(before, idx as int, want[idx as int]);
        }
        MemStep::Touched { pause }
    }

    /// Number of buffers held.
    pub fn buffer_count(&self) -> (n: usize)
        requires
            self.wf(),
        ensures
            n == self.buffers().len(),
    {
        self.buffers.len()
    }

    /// Byte `offset` of buffer `buffer`.
    pub fn byte_at(&self, buffer: usize, offset: usize) -> (b: u8)
        requires
            self.wf(),
            buffer < self.buffers().len(),
            offset < self.buffers()[buffer as int].len(),
        ensures
            b == self.buffers()[buffer as int][offset as int],
    {
        self.buffers[buffer][offset]
    }

    /// Length of buffer `buffer`.
    pub fn buffer_len(&self, buffer: usize) -> (n: usize)
        requires
            self.wf(),
            buffer < self.buffers().len(),
        ensures
            n == self.buffers()[buffer as int].len(),
            1 <= n <= MEM_CHUNK,
    {
        self.buffers[buffer].len()
    }

    /// Bytes allocated so far.
    pub fn allocated_bytes(&self) -> (n: u64)
        ensures
            n == self.allocated(),
    {
        self.allocated
    }
}

/// Replacing a buffer by one of the same length keeps the total.
pub proof fn lemma_total_len_update(buffers: Seq<Seq<u8>>, i: int, b: Seq<u8>)
    requires
        0 <= i < buffers.len(),
        b.len() == buffers[i].len(),
    ensures
        total_len(buffers.update(i, b)) == total_len(buffers),
    decreases buffers.len(),
{
    let u = buffers.update(i, b);
    if i == buffers.len() - 1 {
        assert(u.drop_last() =~= buffers.drop_last());
    } else {
        assert(u.drop_last() =~= buffers.drop_last().update(i, b));
        lemma_total_len_update(buffers.drop_last(), i, b);
    }
}

/// Size of the backing file for a requested size: never below `FILE_MIN`.
pub open spec fn file_size_of(max_bytes: u64) -> u64 {
    if max_bytes < FILE_MIN {
        FILE_MIN
    } else {
        max_bytes
    }
}

/// `v` rounded down to a multiple of `BLOCK_MIN`.
pub open spec fn aligned_down(v: int) -> int {
    v - v % (BLOCK_MIN as int)
}

/// Size of the block that the draw `r` selects: between `BLOCK_MIN` and
/// `BLOCK_MAX`, a multiple of `BLOCK_MIN`.
pub open spec fn block_size(r: u32) -> u64 {
    aligned_down(BLOCK_MIN + (r as int) % (BLOCK_MAX - BLOCK_MIN + 1)) as u64
}

/// Offset that the draw `r` selects when `room` bytes of the file lie
/// beyond a block placed at its start: a multiple of `BLOCK_MIN` below
/// `room`, or zero if there is no room.
pub open spec fn block_offset(r: u64, room: u64) -> u64 {
    if room == 0 {
        0
    } else {
        aligned_down((r % room) as int) as u64
    }
}

/// Byte `i` of the buffer that the disk worker writes from: every
/// `PAGE`-th byte holds the low byte of its page number, the rest is zero.
pub open spec fn pattern_byte(i: int) -> u8 {
    if i % (PAGE as int) == 0 {
        ((i / (PAGE as int)) % 256) as u8
    } else {
        0
    }
}

/// A write never leaves the file: whatever is drawn, the block ends at or
/// before the end of a file of at least `FILE_MIN` bytes, and its size and
/// offset are multiples of `BLOCK_MIN`.
pub proof fn lemma_write_in_file(size_draw: u32, offset_draw: u64, file_size: u64)
    requires
        file_size >= FILE_MIN,
    ensures
        BLOCK_MIN <= block_size(size_draw) <= BLOCK_MAX,
        block_size(size_draw) % BLOCK_MIN == 0,
        block_size(size_draw) <= file_size,
        block_offset(offset_draw, (file_size - block_size(size_draw)) as u64) % BLOCK_MIN == 0,
        block_offset(offset_draw, (file_size - block_size(size_draw)) as u64) + block_size(
            size_draw,
        ) <= file_size,
{
}

/// One write of the disk worker.
#[derive(Clone, Copy, Debug, PartialEq, Eq)]
pub struct DiskWrite {
    /// Where in the file the block starts.
    pub offset: u64,
    /// How many bytes of the pattern buffer are written there.
    pub len: usize,
    /// Whether to force the data to disk after this write.
    pub flush: bool,
}

/// Disk-churn worker: blocks of random size at random places of a file of
/// fixed size.
pub struct DiskWorker {
    rng: Rng,
    file_size: u64,
}

impl DiskWorker {
    /// State of the generator.
    pub closed spec fn rng_state(&self) -> u64 {
        self.rng@
    }

    /// Size of the backing file.
    pub closed spec fn size(&self) -> u64 {
        self.file_size
    }

    /// Well-formedness: the generator's state is not zero, and the file
    /// has at least its least size.
    pub closed spec fn wf(&self) -> bool {
        self.rng.wf() && self.file_size >= FILE_MIN
    }

    /// A worker for a file of `max_bytes` bytes, or of `FILE_MIN` bytes if
    /// that is more.
    pub fn new(max_bytes: u64, seed: u64) -> (w: Self)
        ensures
            w.wf(),
            w.size() == file_size_of(max_bytes),
            w.rng_state() == crate::rng::initial_state(seed),
    {
        let file_size: u64 = if max_bytes < FILE_MIN {
            FILE_MIN
        } else {
            max_bytes
        };
        DiskWorker { rng: Rng::new(seed), file_size }
    }

    /// Size to which the backing file is to be extended.
    pub fn file_size(&self) -> (n: u64)
        requires
            self.wf(),
        ensures
            n == self.size(),
            n >= FILE_MIN,
    {
        self.file_size
    }

    /// Draws the next write: a block size, an offset at which the block
    /// still fits in the file, and whether to flush afterwards. The offset
    /// is drawn only when more than one place is possible.
    pub fn next_write(&mut self) -> (w: DiskWrite)
        requires
            old(self).wf(),
        ensures
            final(self).wf(),
            final(self).size() == old(self).size(),
            BLOCK_MIN <= w.len <= BLOCK_MAX,
            w.len % (BLOCK_MIN as usize) == 0,
            w.offset % BLOCK_MIN == 0,
            w.offset + w.len <= old(self).size(),
            ({
                let s1 = xorshift(old(self).rng_state());
                let s2 = xorshift(s1);
                let room = (old(self).size() - block_size(low32(s1))) as u64;
                &&& w.len == block_size(low32(s1))
                &&& w.offset == block_offset(s2, room)
                &&& final(self).rng_state() == (if room == 0 {
                    s2
                } else {
                    xorshift(s2)
                })
                &&& w.flush == (low32(final(self).rng_state()) % FLUSH_ODDS == 0)
            }),
    {
        let draw: u32 = self.rng.next_u32();
        let raw: u64 = BLOCK_MIN + (draw as u64) % (BLOCK_MAX - BLOCK_MIN + 1);
        let size: u64 = raw - raw % BLOCK_MIN;
        let room: u64 = self.file_size - size;
        let offset: u64 = if room == 0 {
            0
        } else {
            let at: u64 = self.rng.next_u64() % room;
            at - at % BLOCK_MIN
        };
        let flush: bool = self.rng.next_u32() % FLUSH_ODDS == 0;
        DiskWrite { offset, len: size as usize, flush }
    }
}

/// The buffer that the disk worker writes from: `BLOCK_MAX` bytes, each as
/// `pattern_byte` says.
pub fn write_pattern() -> (buf: Vec<u8>)
    ensures
        buf@.len() == BLOCK_MAX,
        forall|i: int| 0 <= i < buf@.len() ==> #[trigger] buf@[i] == pattern_byte(i),
{
    let size: usize = BLOCK_MAX as usize;
    let mut buf: Vec<u8> = vec![0u8; size];
    let mut i: usize = 0;
    while i < size
        invariant
            size == BLOCK_MAX,
            buf@.len() == size,
            i <= size,
            i % PAGE == 0,
            forall|k: int|
                0 <= k < size ==> #[trigger] buf@[k] == (if k < i {
                    pattern_byte(k)
                } else {
                    0u8
                }),
        decreases size - i,
    {
        buf.set(i, ((i / PAGE) % 256) as u8);
        i = i + PAGE;
    }
    buf
}

} // verus!
