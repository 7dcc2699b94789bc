//! Rate and sliding-window statistics.
//!
//! Metric values are unsigned fixed-point numbers in thousandths: the value
//! `1500` stands for 1.5 of whatever the metric counts.

use vstd::prelude::*;

verus! {

/// Thousandths in one unit.
pub const MILLI: u64 = 1000;

/// Physical slot of the `i`-th oldest entry of a window of `filled` entries
/// in a ring of `len` slots whose next write goes to `head`.
pub open spec fn slot_of(len: int, head: int, filled: int, i: int) -> int {
    (head + len - filled + i) % len
}

/// The `filled` most recent entries of a ring, oldest first.
pub open spec fn window_of(hist: Seq<u64>, head: int, filled: int) -> Seq<u64> {
    Seq::new(filled as nat, |i: int| hist[slot_of(hist.len() as int, head, filled, i)])
}

/// Sum of the entries of a window.
pub open spec fn window_sum(w: Seq<u64>) -> nat
    decreases w.len(),
{
    if w.len() == 0 {
        0
    } else {
        window_sum(w.drop_last()) + w.last() as nat
    }
}

/// `m` is the least entry of the nonempty window `w`.
pub open spec fn is_window_min(m: u64, w: Seq<u64>) -> bool {
    &&& forall|i: int| 0 <= i < w.len() ==> m <= #[trigger] w[i]
    &&& exists|i: int| 0 <= i < w.len() && #[trigger] w[i] == m
}

/// `m` is the greatest entry of the nonempty window `w`.
pub open spec fn is_window_max(m: u64, w: Seq<u64>) -> bool {
    &&& forall|i: int| 0 <= i < w.len() ==> #[trigger] w[i] <= m
    &&& exists|i: int| 0 <= i < w.len() && #[trigger] w[i] == m
}

/// `r` is (least, mean rounded down, greatest) of `w`, or three zeros when
/// `w` is empty.
pub open spec fn is_window_stats(w: Seq<u64>, r: (u64, u64, u64)) -> bool {
    if w.len() == 0 {
        r == (0u64, 0u64, 0u64)
    } else {
        &&& is_window_min(r.0, w)
        &&& r.1 as nat == window_sum(w) / w.len()
        &&& is_window_max(r.2, w)
    }
}

/// The least entry of a window; zero for an empty one.
pub open spec fn window_min(w: Seq<u64>) -> u64
    decreases w.len(),
{
    if w.len() == 0 {
        0
    } else if w.len() == 1 {
        w[0]
    } else {
        let m = window_min(w.drop_last());
        if w.last() < m {
            w.last()
        } else {
            m
        }
    }
}

/// The greatest entry of a window; zero for an empty one.
pub open spec fn window_max(w: Seq<u64>) -> u64
    decreases w.len(),
{
    if w.len() == 0 {
        0
    } else if w.len() == 1 {
        w[0]
    } else {
        let m = window_max(w.drop_last());
        if w.last() > m {
            w.last()
        } else {
            m
        }
    }
}

/// (least, mean rounded down, greatest) of a window; three zeros for an
/// empty one.
pub open spec fn window_stats_spec(w: Seq<u64>) -> (u64, u64, u64) {
    if w.len() == 0 {
        (0u64, 0u64, 0u64)
    } else {
        (window_min(w), (window_sum(w) / w.len()) as u64, window_max(w))
    }
}

/// What a window of capacity `cap` holds after `v` is pushed: `v` is
/// appended, and the oldest entry leaves once the window is full.
pub open spec fn pushed(w: Seq<u64>, cap: nat, v: u64) -> Seq<u64> {
    if w.len() < cap {
        w.push(v)
    } else {
        w.skip(1).push(v)
    }
}

/// The window after all of `vals` are pushed in order.
pub open spec fn pushed_all(w: Seq<u64>, cap: nat, vals: Seq<u64>) -> Seq<u64>
    decreases vals.len(),
{
    if vals.len() == 0 {
        w
    } else {
        pushed(pushed_all(w, cap, vals.drop_last()), cap, vals.last())
    }
}

/// The last `n` entries of `s`, or all of `s` if it has fewer.
pub open spec fn last_n(s: Seq<u64>, n: nat) -> Seq<u64> {
    if s.len() <= n {
        s
    } else {
        s.skip(s.len() - n)
    }
}

/// Increase of a counter between two readings, zero if it went backwards.
pub open spec fn counter_delta(now: u64, prev: u64) -> nat {
    if now >= prev {
        (now - prev) as nat
    } else {
        0
    }
}

/// Events per second, in thousandths, for a counter that went from `prev` to
/// `now` in `interval_ms` milliseconds.
pub open spec fn rate_spec(now: u64, prev: u64, interval_ms: u64) -> nat {
    (counter_delta(now, prev) * 1_000_000) / (interval_ms as nat)
}

/// Megabytes per second, in thousandths, for a byte counter that went from
/// `prev` to `now` in `interval_ms` milliseconds.
pub open spec fn throughput_spec(now: u64, prev: u64, interval_ms: u64) -> nat {
    (counter_delta(now, prev) * 1_000_000) / (interval_ms as nat * 1_048_576)
}

/// `part` as a percentage of `whole`, in thousandths of a percent; zero when
/// `whole` is zero.
pub open spec fn percent_spec(part: u64, whole: u64) -> nat {
    if whole == 0 {
        0
    } else {
        (part as nat * 100_000) / (whole as nat)
    }
}

/// A value cut off at the largest `u64`.
pub open spec fn clip_u64(v: nat) -> u64 {
    if v > u64::MAX {
        u64::MAX
    } else {
        v as u64
    }
}

/// A sum of two indices below `n` wraps around at most once.
pub proof fn lemma_mod_wrap(a: int, n: int)
    requires
        n > 0,
        0 <= a < 2 * n,
    ensures
        a % n == if a < n {
            a
        } else {
            a - n
        },
{
    if a < n {
        vstd::arithmetic::div_mod::lemma_small_mod(a as nat, n as nat);
    } else {
        vstd::arithmetic::div_mod::lemma_small_mod((a - n) as nat, n as nat);
        vstd::arithmetic::div_mod::lemma_mod_sub_multiples_vanish(a, n);
    }
}

/// The sum of a window lies between its length times any lower bound and its
/// length times any upper bound of its entries.
pub proof fn lemma_sum_bounds(w: Seq<u64>, lo: u64, hi: u64)
    requires
        forall|i: int| 0 <= i < w.len() ==> lo <= #[trigger] w[i] <= hi,
    ensures
        lo * w.len() <= window_sum(w) <= hi * w.len(),
    decreases w.len(),
{
    if w.len() > 0 {
        let p = w.drop_last();
        assert forall|i: int| 0 <= i < p.len() implies lo <= #[trigger] p[i] <= hi by {
            assert(p[i] == w[i]);
        }
        lemma_sum_bounds(p, lo, hi);
        assert(lo <= w[w.len() - 1] <= hi);
        assert(lo * w.len() == lo * p.len() + lo) by (nonlinear_arith)
            requires
                w.len() == p.len() + 1,
        ;
        assert(hi * w.len() == hi * p.len() + hi) by (nonlinear_arith)
            requires
                w.len() == p.len() + 1,
        ;
    }
}

/// The three statistics of a nonempty window are ordered, and every entry
/// lies between the least and the greatest.
pub proof fn lemma_stats_ordered(w: Seq<u64>, r: (u64, u64, u64))
    requires
        is_window_stats(w, r),
    ensures
        r.0 <= r.1 <= r.2,
        forall|i: int| 0 <= i < w.len() ==> r.0 <= #[trigger] w[i] <= r.2,
{
    if w.len() > 0 {
        lemma_sum_bounds(w, r.0, r.2);
        let s = window_sum(w) as int;
        let n = w.len() as int;
        let lo = r.0 as int;
        let hi = r.2 as int;
        assert(lo <= s / n <= hi) by (nonlinear_arith)
            requires
                n > 0,
                lo * n <= s <= hi * n,
        ;
    }
}

/// `window_min` and `window_max` are the least and the greatest entry.
pub proof fn lemma_window_min_max(w: Seq<u64>)
    requires
        w.len() > 0,
    ensures
        is_window_min(window_min(w), w),
        is_window_max(window_max(w), w),
    decreases w.len(),
{
    if w.len() == 1 {
        assert(w[0] == window_min(w));
        assert(w[0] == window_max(w));
    } else {
        let p = w.drop_last();
        lemma_window_min_max(p);
        let i_min = choose|i: int| 0 <= i < p.len() && #[trigger] p[i] == window_min(p);
        let i_max = choose|i: int| 0 <= i < p.len() && #[trigger] p[i] == window_max(p);
        assert(w[i_min] == p[i_min]);
        assert(w[i_max] == p[i_max]);
        assert(w[w.len() - 1] == w.last());
        assert forall|i: int| 0 <= i < w.len() implies window_min(w) <= #[trigger] w[i] && w[i]
            <= window_max(w) by {
            if i < p.len() {
                assert(w[i] == p[i]);
            }
        }
    }
}

/// The statistics of a window are unique: whatever is (least, mean rounded
/// down, greatest) of `w` is `window_stats_spec(w)`.
pub proof fn lemma_stats_unique(w: Seq<u64>, r: (u64, u64, u64))
    requires
        is_window_stats(w, r),
    ensures
        r == window_stats_spec(w),
{
    if w.len() > 0 {
        lemma_window_min_max(w);
        lemma_stats_ordered(w, r);
        let a = choose|i: int| 0 <= i < w.len() && #[trigger] w[i] == r.0;
        let b = choose|i: int| 0 <= i < w.len() && #[trigger] w[i] == window_min(w);
        assert(window_min(w) <= w[a] && r.0 <= w[b]);
        let c = choose|i: int| 0 <= i < w.len() && #[trigger] w[i] == r.2;
        let d = choose|i: int| 0 <= i < w.len() && #[trigger] w[i] == window_max(w);
        assert(w[c] <= window_max(w) && w[d] <= r.2);
    }
}

/// Statistics of the `filled` most recent entries of the ring `hist`, whose
/// next write goes to slot `head`: (least, mean rounded down, greatest), or
/// three zeros when `filled` is zero.
pub fn stats_window(hist: &[u64], head: usize, filled: usize) -> (r: (u64, u64, u64))
    requires
        filled <= hist@.len(),
    ensures
        r == window_stats_spec(window_of(hist@, head as int, filled as int)),
        is_window_stats(window_of(hist@, head as int, filled as int), r),
        r.0 <= r.1 <= r.2,
{
    if filled == 0 {
        return (0, 0, 0);
    }
    let len: usize = hist.len();
    let given: usize = head;
    let head: usize = given % len;
    let ghost w = window_of(hist@, head as int, filled as int);
    proof {
        let w_given = window_of(hist@, given as int, filled as int);
        assert forall|i: int| 0 <= i < filled implies w_given[i] == w[i] by {
            vstd::arithmetic::div_mod::lemma_add_mod_noop(
                given as int,
                len - filled + i,
                len as int,
            );
            vstd::arithmetic::div_mod::lemma_add_mod_noop(
                head as int,
                len - filled + i,
                len as int,
            );
            vstd::arithmetic::div_mod::lemma_mod_twice(given as int, len as int);
        }
        assert(w_given =~= w);
    }
    let start: usize = if head >= filled {
        head - filled
    } else {
        head + (len - filled)
    };
    proof {
        lemma_mod_wrap(head + len - filled, len as int);
    }
    let mut idx: usize = start;
    let mut min_v: u64 = u64::MAX;
    let mut max_v: u64 = 0;
    let mut sum: u128 = 0;
    let mut i: usize = 0;
    let ghost mut min_at: int = 0;
    let ghost mut max_at: int = 0;
    while i < filled
        invariant
            0 < filled <= len,
            len == hist@.len(),
            head < len,
            i <= filled,
            idx < len,
            w == window_of(hist@, head as int, filled as int),
            i < filled ==> idx as int == slot_of(len as int, head as int, filled as int, i as int),
            sum as nat == window_sum(w.take(i as int)),
            sum <= i * u64::MAX,
            forall|j: int| 0 <= j < i ==> min_v <= #[trigger] w[j] <= max_v,
            i == 0 ==> min_v == u64::MAX && max_v == 0,
            i > 0 ==> 0 <= min_at < i && w[min_at] == min_v,
            i > 0 ==> 0 <= max_at < i && w[max_at] == max_v,
        decreases filled - i,
    {
        let v: u64 = hist[idx];
        assert(v == w[i as int]);
        if v < min_v {
            min_v = v;
        }
        if v > max_v {
            max_v = v;
        }
        proof {
            if v == min_v {
                min_at = i as int;
            }
            if v == max_v {
                max_at = i as int;
            }
            assert(w.take(i + 1).drop_last() =~= w.take(i as int));
            assert(w.take(i + 1).last() == v);
            assert((i + 1) * u64::MAX == i * u64::MAX + u64::MAX) by (nonlinear_arith);
            assert(i * u64::MAX <= (usize::MAX as int) * (u64::MAX as int)) by (nonlinear_arith)
                requires
                    0 <= i <= usize::MAX,
            ;
            assert((usize::MAX as int) * (u64::MAX as int) + u64::MAX <= u128::MAX)
                by (nonlinear_arith)
                requires
                    usize::MAX <= u64::MAX,
            ;
        }
        sum = sum + v as u128;
        i = i + 1;
        idx = if idx + 1 == len {
            0
        } else {
            idx + 1
        };
        proof {
            if i < filled {
                lemma_mod_wrap(head + len - filled + i, len as int);
                lemma_mod_wrap(head + len - filled + i - 1, len as int);
            }
        }
    }
    proof {
        assert(w.take(filled as int) =~= w);
        assert(w[min_at] == min_v && w[max_at] == max_v);
        lemma_sum_bounds(w, min_v, max_v);
        let s = sum as int;
        let n = filled as int;
        let lo = min_v as int;
        let hi = max_v as int;
        assert(lo <= s / n <= hi) by (nonlinear_arith)
            requires
                n > 0,
                lo * n <= s <= hi * n,
        ;
    }
    let avg: u64 = (sum / (filled as u128)) as u64;
    proof {
        lemma_stats_unique(w, (min_v, avg, max_v));
    }
    (min_v, avg, max_v)
}

/// Per-second rate, in thousandths, of a counter read as `prev` and then,
/// `interval_ms` milliseconds later, as `now`. A counter that went backwards
/// counts as unchanged; a rate too large for `u64` is cut off.
pub fn rate(now: u64, prev: u64, interval_ms: u64) -> (r: u64)
    requires
        interval_ms > 0,
    ensures
        r == clip_u64(rate_spec(now, prev, interval_ms)),
        now <= prev ==> r == 0,
{
    let delta: u64 = now.saturating_sub(prev);
    let scaled: u128 = (delta as u128) * 1_000_000u128;
    let q: u128 = scaled / (interval_ms as u128);
    if q > u64::MAX as u128 {
        u64::MAX
    } else {
        q as u64
    }
}

/// `part` as a percentage of `whole`, in thousandths of a percent, cut off at
/// the largest `u64`; zero when `whole` is zero.
pub fn percent(part: u64, whole: u64) -> (r: u64)
    ensures
        r == clip_u64(percent_spec(part, whole)),
        part <= whole ==> r <= 100_000,
{
    if whole == 0 {
        return 0;
    }
    let scaled: u128 = (part as u128) * 100_000u128;
    let q: u128 = scaled / (whole as u128);
    proof {
        if part <= whole {
            let p = part as int;
            let w = whole as int;
            assert((p * 100_000) / w <= 100_000) by (nonlinear_arith)
                requires
                    0 <= p <= w,
                    w > 0,
            ;
        }
    }
    if q > u64::MAX as u128 {
        u64::MAX
    } else {
        q as u64
    }
}

/// Megabytes per second, in thousandths, of a byte counter read as `prev`
/// and then, `interval_ms` milliseconds later, as `now`. A counter that went
/// backwards counts as unchanged.
pub fn throughput_mb(now: u64, prev: u64, interval_ms: u64) -> (r: u64)
    requires
        interval_ms > 0,
    ensures
        r == throughput_spec(now, prev, interval_ms),
        now <= prev ==> r == 0,
{
    let delta: u64 = now.saturating_sub(prev);
    let scaled: u128 = (delta as u128) * 1_000_000u128;
    let den: u128 = (interval_ms as u128) * 1_048_576u128;
    let q: u128 = scaled / den;
    proof {
        let s = scaled as int;
        let d = den as int;
        assert(s / d <= u64::MAX) by (nonlinear_arith)
            requires
                0 <= s <= u64::MAX * 1_000_000,
                d >= 1_048_576,
        ;
    }
    q as u64
}

} // verus!
