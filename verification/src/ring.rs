//! Fixed-capacity history of one metric: the most recent samples, oldest
//! first, whatever the physical write position.

use vstd::prelude::*;
use crate::stats::{
    is_window_stats, last_n, lemma_mod_wrap, pushed, pushed_all, stats_window, window_of,
    window_stats_spec,
};

verus! {

/// A window of `cap` chart columns: the entries of `w` at the right, zeros
/// for the columns that no sample has reached yet at the left.
pub open spec fn padded(w: Seq<u64>, cap: nat) -> Seq<u64> {
    Seq::new(
        cap,
        |x: int|
            if x < cap - w.len() {
                0u64
            } else {
                w[x - (cap - w.len())]
            },
    )
}

/// The slots of a ring in physical order starting at `head`.
pub open spec fn rotated(hist: Seq<u64>, head: int) -> Seq<u64> {
    Seq::new(hist.len(), |x: int| hist[(head + x) % (hist.len() as int)])
}

/// Circular buffer of the most recent samples of one metric.
pub struct RingBuffer {
    data: Vec<u64>,
    head: usize,
    filled: usize,
}

impl View for RingBuffer {
    type V = Seq<u64>;

    /// The samples held, oldest first.
    closed spec fn view(&self) -> Seq<u64> {
        window_of(self.data@, self.head as int, self.filled as int)
    }
}

impl RingBuffer {
    /// Number of slots.
    pub closed spec fn cap(&self) -> nat {
        self.data@.len()
    }

    /// Slot that the next push writes.
    pub closed spec fn head_spec(&self) -> int {
        self.head as int
    }

    /// The slots in physical order.
    pub closed spec fn slots(&self) -> Seq<u64> {
        self.data@
    }

    /// Well-formedness: at least one slot, at most `cap` samples, and until
    /// the ring has warmed up the samples sit at the front and the rest of
    /// the slots are zero.
    pub closed spec fn wf(&self) -> bool {
        &&& self.data@.len() >= 1
        &&& self.head < self.data@.len()
        &&& self.filled <= self.data@.len()
        &&& self.filled < self.data@.len() ==> {
            &&& self.head == self.filled
            &&& forall|i: int| self.filled <= i < self.data@.len() ==> self.data@[i] == 0
        }
    }

    /// A well-formed ring holds at most `cap` samples, and its view is the
    /// window that its slots, head and fill count determine.
    pub proof fn lemma_wf(&self)
        requires
            self.wf(),
        ensures
            self.cap() >= 1,
            self@.len() <= self.cap(),
            0 <= self.head_spec() < self.cap(),
            self.slots().len() == self.cap(),
            self@ == window_of(self.slots(), self.head_spec(), self@.len() as int),
            rotated(self.slots(), self.head_spec()) == padded(self@, self.cap()),
    {
        let len = self.data@.len() as int;
        let head = self.head as int;
        let filled = self.filled as int;
        let r = rotated(self.slots(), head);
        let p = padded(self@, self.cap());
        assert forall|x: int| 0 <= x < len implies r[x] == p[x] by {
            lemma_mod_wrap(head + x, len);
            if x >= len - filled {
                lemma_mod_wrap(head + len - filled + (x - (len - filled)), len);
            }
        }
        assert(r =~= p);
    }

    /// An empty ring of `capacity` slots.
    pub fn new(capacity: usize) -> (r: Self)
        requires
            capacity >= 1,
        ensures
            r.wf(),
            r.cap() == capacity,
            r@ == Seq::<u64>::empty(),
    {
        let data: Vec<u64> = vec![0u64; capacity];
        let r = RingBuffer { data, head: 0, filled: 0 };
        assert(r@ =~= Seq::<u64>::empty());
        r
    }

    /// Number of slots.
    pub fn capacity(&self) -> (n: usize)
        requires
            self.wf(),
        ensures
            n == self.cap(),
            n >= 1,
    {
        self.data.len()
    }

    /// Number of samples held.
    pub fn len(&self) -> (n: usize)
        requires
            self.wf(),
        ensures
            n == self@.len(),
            n <= self.cap(),
    {
        self.filled
    }

    /// Slot that the next push writes.
    pub fn head(&self) -> (h: usize)
        requires
            self.wf(),
        ensures
            h == self.head_spec(),
            h < self.cap(),
    {
        self.head
    }

    /// The slots in physical order.
    pub fn as_slice(&self) -> (s: &[u64])
        requires
            self.wf(),
        ensures
            s@ == self.slots(),
            s@.len() == self.cap(),
    {
        self.data.as_slice()
    }

    /// Stores `value` as the newest sample. While the ring is not full the
    /// window grows by one; afterwards the oldest sample is overwritten.
    pub fn push(&mut self, value: u64)
        requires
            old(self).wf(),
        ensures
            final(self).wf(),
            final(self).cap() == old(self).cap(),
            final(self)@ == pushed(old(self)@, old(self).cap(), value),
            final(self).head_spec() == (old(self).head_spec() + 1) % (old(self).cap() as int),
            final(self).slots() == old(self).slots().update(old(self).head_spec(), value),
    {
        let cap: usize = self.data.len();
        let ghost before = *self;
        let ghost len = cap as int;
        let ghost head0 = self.head as int;
        self.data.set(self.head, value);
        self.head = (self.head + 1) % cap;
        if self.filled < cap {
            self.filled = self.filled + 1;
        }
        proof {
            lemma_mod_wrap(head0 + 1, len);
            let w0 = before@;
            let w1 = self@;
            let want = pushed(w0, len as nat, value);
            let f0 = before.filled as int;
            let f1 = self.filled as int;
            assert(w1.len() == want.len());
            assert forall|i: int| 0 <= i < w1.len() implies w1[i] == want[i] by {
                lemma_mod_wrap(self.head + len - f1 + i, len);
                if f0 < len {
                    if i < f0 {
                        lemma_mod_wrap(head0 + len - f0 + i, len);
                    }
                } else {
                    if i < len - 1 {
                        lemma_mod_wrap(head0 + len - f0 + (i + 1), len);
                    }
                }
            }
            assert(w1 =~= want);
        }
    }

    /// The `i`-th oldest sample held.
    pub fn get(&self, i: usize) -> (v: u64)
        requires
            self.wf(),
            i < self@.len(),
        ensures
            v == self@[i as int],
    {
        let cap: usize = self.data.len();
        let start: usize = if self.head >= self.filled {
            self.head - self.filled
        } else {
            self.head + (cap - self.filled)
        };
        let idx: usize = if i >= cap - start {
            i - (cap - start)
        } else {
            start + i
        };
        proof {
            lemma_mod_wrap(self.head + cap - self.filled + i, cap as int);
        }
        self.data[idx]
    }

    /// The newest sample, if any.
    pub fn latest(&self) -> (v: Option<u64>)
        requires
            self.wf(),
        ensures
            v == if self@.len() == 0 {
                None
            } else {
                Some(self@.last())
            },
    {
        if self.filled == 0 {
            None
        } else {
            Some(self.get(self.filled - 1))
        }
    }

    /// The samples held, oldest first.
    pub fn to_vec(&self) -> (v: Vec<u64>)
        requires
            self.wf(),
        ensures
            v@ == self@,
    {
        let mut out: Vec<u64> = Vec::new();
        let mut i: usize = 0;
        while i < self.filled
            invariant
                self.wf(),
                i <= self.filled,
                self.filled == self@.len(),
                out@ == self@.take(i as int),
            decreases self.filled - i,
        {
            let v: u64 = self.get(i);
            out.push(v);
            assert(self@.take(i + 1) =~= self@.take(i as int).push(v));
            i = i + 1;
        }
        assert(self@.take(self.filled as int) =~= self@);
        out
    }

    /// (least, mean rounded down, greatest) of the samples held; three zeros
    /// while the ring is empty.
    pub fn window_stats(&self) -> (r: (u64, u64, u64))
        requires
            self.wf(),
        ensures
            r == window_stats_spec(self@),
            is_window_stats(self@, r),
            r.0 <= r.1 <= r.2,
    {
        stats_window(self.data.as_slice(), self.head, self.filled)
    }
}

/// After any run of pushes a window holds the last `cap` entries of what it
/// held before followed by what was pushed.
pub proof fn lemma_pushed_all_keeps_latest(w: Seq<u64>, cap: nat, vals: Seq<u64>)
    requires
        cap >= 1,
        w.len() <= cap,
    ensures
        pushed_all(w, cap, vals) == last_n(w + vals, cap),
        pushed_all(w, cap, vals).len() <= cap,
    decreases vals.len(),
{
    if vals.len() == 0 {
        assert(w + vals =~= w);
    } else {
        let init = vals.drop_last();
        lemma_pushed_all_keeps_latest(w, cap, init);
        let mid = pushed_all(w, cap, init);
        let all = w + vals;
        assert(all =~= (w + init).push(vals.last()));
        assert(pushed(mid, cap, vals.last()) =~= last_n(all, cap));
    }
}

/// Wraparound keeps chronological order: once at least `cap` values have
/// been pushed, the window is exactly the last `cap` of them, in the order
/// pushed, and what the ring held before, or was pushed earlier, plays no
/// part.
pub proof fn lemma_wraparound_order(w: Seq<u64>, cap: nat, vals: Seq<u64>)
    requires
        cap >= 1,
        w.len() <= cap,
        vals.len() >= cap,
    ensures
        pushed_all(w, cap, vals) == vals.skip(vals.len() - cap),
        pushed_all(w, cap, vals) == pushed_all(
            Seq::<u64>::empty(),
            cap,
            vals.skip(vals.len() - cap),
        ),
{
    let tail = vals.skip(vals.len() - cap);
    lemma_pushed_all_keeps_latest(w, cap, vals);
    assert(last_n(w + vals, cap) =~= tail);
    lemma_pushed_all_keeps_latest(Seq::<u64>::empty(), cap, tail);
    assert(Seq::<u64>::empty() + tail =~= tail);
}

} // verus!
