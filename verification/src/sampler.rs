//! One tick of the sampling loop: from what was read this tick and what was
//! read at the tick before, to the sample and the updated histories.

use vstd::prelude::*;
use crate::ring::RingBuffer;
use crate::sources::GpuStatus;
use crate::stats::{
    clip_u64, counter_delta, percent, percent_spec, pushed, rate, rate_spec, throughput_mb,
    throughput_spec, MILLI,
};

verus! {

/// What is read at one tick: the clock, the system's reports where they
/// could be read, and the workers' counters.
#[derive(Clone, Copy, Debug, PartialEq, Eq)]
pub struct Readings {
    /// Milliseconds since the run began.
    pub elapsed_ms: u64,
    /// Cumulative (total, idle) processor ticks.
    pub cpu_times: Option<(u64, u64)>,
    /// (total, used) kilobytes of memory.
    pub mem_kb: Option<(u64, u64)>,
    /// Bytes written by the disk worker so far.
    pub disk_bytes: u64,
    /// Operations of the CPU workers so far.
    pub cpu_ops: u64,
    /// Operations of the memory worker so far.
    pub mem_ops: u64,
    /// Writes of the disk worker so far.
    pub disk_ops: u64,
    /// Temperature in thousandths of a degree.
    pub temp_c: Option<i64>,
    /// Mean processor frequency in kilohertz.
    pub freq_khz: Option<u64>,
    /// Load averages over one, five and fifteen minutes, in thousandths.
    pub load: Option<(i64, i64, i64)>,
    /// Status of the graphics processor.
    pub gpu: Option<GpuStatus>,
}

/// The snapshot of one tick. Rates and percentages are in thousandths. A
/// reading that was not available is `None` as a whole: no group of optional
/// values is ever filled in part.
#[derive(Clone, Copy, Debug, PartialEq, Eq)]
pub struct Sample {
    /// Milliseconds since the run began.
    pub elapsed_ms: u64,
    /// Processor utilisation in percent.
    pub cpu_pct: u64,
    /// Memory in use in percent.
    pub mem_pct: u64,
    /// Disk throughput in megabytes per second.
    pub disk_mb_s: u64,
    /// Operations of the CPU workers per second.
    pub cpu_ops_s: u64,
    /// Operations of the memory worker per second.
    pub mem_ops_s: u64,
    /// Writes of the disk worker per second.
    pub disk_iops: u64,
    /// Temperature in thousandths of a degree.
    pub temp_c: Option<i64>,
    /// Mean processor frequency in kilohertz.
    pub freq_khz: Option<u64>,
    /// Load averages, in thousandths.
    pub load: Option<(i64, i64, i64)>,
    /// Memory in use, in megabytes.
    pub mem_used_mb: u64,
    /// Memory in all, in megabytes.
    pub mem_total_mb: u64,
    /// Status of the graphics processor.
    pub gpu: Option<GpuStatus>,
}

/// Processor utilisation between two readings of the tick counters, in
/// thousandths of a percent: the share of the ticks that were not idle.
/// Zero without two readings, or if no tick passed.
pub open spec fn cpu_pct_spec(prev: Option<(u64, u64)>, cur: Option<(u64, u64)>) -> u64 {
    match (prev, cur) {
        (Some(p), Some(c)) => {
            let total = counter_delta(c.0, p.0);
            let idle = counter_delta(c.1, p.1);
            let busy = if idle >= total {
                0
            } else {
                total - idle
            };
            clip_u64(percent_spec(busy as u64, total as u64))
        },
        _ => 0,
    }
}

/// Memory in use in thousandths of a percent; zero without a reading.
pub open spec fn mem_pct_spec(mem: Option<(u64, u64)>) -> u64 {
    match mem {
        Some(m) => clip_u64(percent_spec(m.1, m.0)),
        None => 0,
    }
}

/// Kilobytes as whole megabytes.
pub open spec fn kb_to_mb(kb: u64) -> u64 {
    kb / 1024
}

/// The sample that the readings `r` give after the readings `prev`, taken
/// `interval_ms` milliseconds earlier, of which `prev_cpu` is the last
/// reading of the processor ticks.
pub open spec fn sample_spec(
    prev_cpu: Option<(u64, u64)>,
    prev: Counters,
    interval_ms: u64,
    r: Readings,
) -> Sample {
    Sample {
        elapsed_ms: r.elapsed_ms,
        cpu_pct: cpu_pct_spec(prev_cpu, r.cpu_times),
        mem_pct: mem_pct_spec(r.mem_kb),
        disk_mb_s: throughput_spec(r.disk_bytes, prev.disk_bytes, interval_ms) as u64,
        cpu_ops_s: clip_u64(rate_spec(r.cpu_ops, prev.cpu_ops, interval_ms)),
        mem_ops_s: clip_u64(rate_spec(r.mem_ops, prev.mem_ops, interval_ms)),
        disk_iops: clip_u64(rate_spec(r.disk_ops, prev.disk_ops, interval_ms)),
        temp_c: r.temp_c,
        freq_khz: r.freq_khz,
        load: r.load,
        mem_used_mb: match r.mem_kb {
            Some(m) => kb_to_mb(m.1),
            None => 0,
        },
        mem_total_mb: match r.mem_kb {
            Some(m) => kb_to_mb(m.0),
            None => 0,
        },
        gpu: r.gpu,
    }
}

/// The workers' counters as read at one tick.
#[derive(Clone, Copy, Debug, PartialEq, Eq)]
pub struct Counters {
    /// Bytes written by the disk worker.
    pub disk_bytes: u64,
    /// Operations of the CPU workers.
    pub cpu_ops: u64,
    /// Operations of the memory worker.
    pub mem_ops: u64,
    /// Writes of the disk worker.
    pub disk_ops: u64,
}

/// The counters among the readings.
pub open spec fn counters_of(r: Readings) -> Counters {
    Counters {
        disk_bytes: r.disk_bytes,
        cpu_ops: r.cpu_ops,
        mem_ops: r.mem_ops,
        disk_ops: r.disk_ops,
    }
}

/// The greater of two values.
pub open spec fn max_u64(a: u64, b: u64) -> u64 {
    if a >= b {
        a
    } else {
        b
    }
}

/// State of the sampling loop: the readings of the previous tick, the peak
/// that scales the disk chart, and one history per charted metric.
pub struct Sampler {
    /// Milliseconds between two ticks.
    pub interval_ms: u64,
    /// Last reading of the processor ticks.
    pub prev_cpu: Option<(u64, u64)>,
    /// Counters at the previous tick.
    pub prev: Counters,
    /// Highest disk throughput seen so far, at least one megabyte per
    /// second; it never falls.
    pub disk_peak: u64,
    /// Processor utilisation.
    pub cpu_hist: RingBuffer,
    /// Memory in use.
    pub mem_hist: RingBuffer,
    /// Disk throughput.
    pub disk_hist: RingBuffer,
    /// Rate of the CPU workers.
    pub cpu_ops_hist: RingBuffer,
    /// Rate of the memory worker.
    pub mem_ops_hist: RingBuffer,
    /// Rate of the disk worker's writes.
    pub disk_ops_hist: RingBuffer,
}

impl Sampler {
    /// Well-formedness: a positive interval and six histories of one width.
    pub open spec fn wf(&self) -> bool {
        &&& self.interval_ms > 0
        &&& self.cpu_hist.wf()
        &&& self.mem_hist.wf()
        &&& self.disk_hist.wf()
        &&& self.cpu_ops_hist.wf()
        &&& self.mem_ops_hist.wf()
        &&& self.disk_ops_hist.wf()
        &&& self.mem_hist.cap() == self.cpu_hist.cap()
        &&& self.disk_hist.cap() == self.cpu_hist.cap()
        &&& self.cpu_ops_hist.cap() == self.cpu_hist.cap()
        &&& self.mem_ops_hist.cap() == self.cpu_hist.cap()
        &&& self.disk_ops_hist.cap() == self.cpu_hist.cap()
    }

    /// Width of the histories.
    pub open spec fn width(&self) -> nat {
        self.cpu_hist.cap()
    }

    /// A sampler with empty histories of `width` entries, whose first tick
    /// is measured against `baseline`.
    pub fn new(width: usize, interval_ms: u64, baseline: &Readings) -> (s: Self)
        requires
            width >= 1,
            interval_ms > 0,
        ensures
            s.wf(),
            s.width() == width,
            s.interval_ms == interval_ms,
            s.prev_cpu == baseline.cpu_times,
            s.prev == counters_of(*baseline),
            s.disk_peak == MILLI,
            s.cpu_hist@.len() == 0,
            s.mem_hist@.len() == 0,
            s.disk_hist@.len() == 0,
            s.cpu_ops_hist@.len() == 0,
            s.mem_ops_hist@.len() == 0,
            s.disk_ops_hist@.len() == 0,
    {
        Sampler {
            interval_ms,
            prev_cpu: baseline.cpu_times,
            prev: Counters {
                disk_bytes: baseline.disk_bytes,
                cpu_ops: baseline.cpu_ops,
                mem_ops: baseline.mem_ops,
                disk_ops: baseline.disk_ops,
            },
            disk_peak: MILLI,
            cpu_hist: RingBuffer::new(width),
            mem_hist: RingBuffer::new(width),
            disk_hist: RingBuffer::new(width),
            cpu_ops_hist: RingBuffer::new(width),
            mem_ops_hist: RingBuffer::new(width),
            disk_ops_hist: RingBuffer::new(width),
        }
    }

    /// One tick: computes the sample from the readings and the previous
    /// tick's, appends each charted metric to its history, raises the disk
    /// peak if the throughput exceeds it, and keeps the readings for the
    /// next tick. The processor ticks are kept from the last tick at which
    /// they could be read.
    pub fn tick(&mut self, r: &Readings) -> (s: Sample)
        requires
            old(self).wf(),
        ensures
            final(self).wf(),
            final(self).width() == old(self).width(),
            final(self).interval_ms == old(self).interval_ms,
            s == sample_spec(old(self).prev_cpu, old(self).prev, old(self).interval_ms, *r),
            final(self).prev == counters_of(*r),
            final(self).prev_cpu == (if r.cpu_times is Some {
                r.cpu_times
            } else {
                old(self).prev_cpu
            }),
            final(self).disk_peak == max_u64(old(self).disk_peak, s.disk_mb_s),
            final(self).cpu_hist@ == pushed(old(self).cpu_hist@, old(self).width(), s.cpu_pct),
            final(self).mem_hist@ == pushed(old(self).mem_hist@, old(self).width(), s.mem_pct),
            final(self).disk_hist@ == pushed(old(self).disk_hist@, old(self).width(), s.disk_mb_s),
            final(self).cpu_ops_hist@ == pushed(
                old(self).cpu_ops_hist@,
                old(self).width(),
                s.cpu_ops_s,
            ),
            final(self).mem_ops_hist@ == pushed(
                old(self).mem_ops_hist@,
                old(self).width(),
                s.mem_ops_s,
            ),
            final(self).disk_ops_hist@ == pushed(
                old(self).disk_ops_hist@,
                old(self).width(),
                s.disk_iops,
            ),
    {
        let cpu_pct: u64 = match (self.prev_cpu, r.cpu_times) {
            (Some(p), Some(c)) => {
                let total: u64 = c.0.saturating_sub(p.0);
                let idle: u64 = c.1.saturating_sub(p.1);
                percent(total.saturating_sub(idle), total)
            },
            _ => 0,
        };
        if r.cpu_times.is_some() {
            self.prev_cpu = r.cpu_times;
        }
        let (mem_pct, mem_used_mb, mem_total_mb): (u64, u64, u64) = match r.mem_kb {
            Some(m) => (percent(m.1, m.0), m.1 / 1024, m.0 / 1024),
            None => (0, 0, 0),
        };
        let disk_mb_s: u64 = throughput_mb(r.disk_bytes, self.prev.disk_bytes, self.interval_ms);
        let cpu_ops_s: u64 = rate(r.cpu_ops, self.prev.cpu_ops, self.interval_ms);
        let mem_ops_s: u64 = rate(r.mem_ops, self.prev.mem_ops, self.interval_ms);
        let disk_iops: u64 = rate(r.disk_ops, self.prev.disk_ops, self.interval_ms);
        self.prev = Counters {
            disk_bytes: r.disk_bytes,
            cpu_ops: r.cpu_ops,
            mem_ops: r.mem_ops,
            disk_ops: r.disk_ops,
        };
        if disk_mb_s > self.disk_peak {
            self.disk_peak = disk_mb_s;
        }
        self.cpu_hist.push(cpu_pct);
        self.mem_hist.push(mem_pct);
        self.disk_hist.push(disk_mb_s);
        self.cpu_ops_hist.push(cpu_ops_s);
        self.mem_ops_hist.push(mem_ops_s);
        self.disk_ops_hist.push(disk_iops);
        Sample {
            elapsed_ms: r.elapsed_ms,
            cpu_pct,
            mem_pct,
            disk_mb_s,
            cpu_ops_s,
            mem_ops_s,
            disk_iops,
            temp_c: r.temp_c,
            freq_khz: r.freq_khz,
            load: r.load,
            mem_used_mb,
            mem_total_mb,
            gpu: r.gpu,
        }
    }

    /// Seconds that the histories span, rounded down and cut off at the
    /// largest `u64`.
    pub fn window_seconds(&self) -> (secs: u64)
        requires
            self.wf(),
        ensures
            secs == clip_u64(((self.cpu_hist@.len() * self.interval_ms) / 1000) as nat),
    {
        let filled: usize = self.cpu_hist.len();
        assert(0 <= filled * self.interval_ms <= usize::MAX * u64::MAX) by (nonlinear_arith)
            requires
                0 <= filled <= usize::MAX,
                0 <= self.interval_ms <= u64::MAX,
        ;
        let q: u128 = (filled as u128 * self.interval_ms as u128) / 1000;
        if q > u64::MAX as u128 {
            u64::MAX
        } else {
            q as u64
        }
    }
}

} // verus!
