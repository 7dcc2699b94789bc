//! The dashboard of one tick, line by line: what runs, what the sensors
//! say, and one chart block with a rate summary per stress role.

use vstd::prelude::*;
use vstd::string::StringSliceAdditionalSpecFns;
use crate::args::Settings;
use crate::config::GIB;
use crate::numfmt::{
    decimal, padded_left, push_decimal, push_padded_left, push_scaled, push_signed_fixed, push_str,
    round_div, scaled_text, signed_fixed_text,
};
use crate::render::{chart_block, format_rate, lines_view, rate_text, render_chart};
use crate::ring::{padded, RingBuffer};
use crate::sampler::{Sample, Sampler};
use crate::sources::GpuStatus;
use crate::stats::{clip_u64, window_stats_spec};

verus! {

/// The scale of the percentage charts: one hundred percent, in thousandths.
pub const PERCENT_SCALE: u64 = 100_000;

/// First line of the dashboard.
pub open spec fn title_text() -> Seq<u8> {
    "Rust Stress All - Ctrl+C to stop".spec_bytes()
}

/// Last line of the dashboard.
pub open spec fn legend_text() -> Seq<u8> {
    "Legend: '*' sample, '|' join. Disk scale uses peak MB/s in window.".spec_bytes()
}

/// What is shown for a reading that is not available.
pub open spec fn absent_text() -> Seq<u8> {
    "n/a".spec_bytes()
}

/// The size of the backing file in gigabytes with one decimal, or `off`.
pub open spec fn disk_text(s: Settings) -> Seq<u8> {
    if s.enable_disk {
        scaled_text(round_div(s.disk_bytes as nat * 10, GIB as nat), 1) + " GB".spec_bytes()
    } else {
        "off".spec_bytes()
    }
}

/// The line that sums up the settings.
pub open spec fn settings_text(s: Settings) -> Seq<u8> {
    "CPU workers: ".spec_bytes() + decimal(s.cpu_workers as nat) + "  Mem target: ".spec_bytes()
        + decimal(
        if s.enable_mem {
            s.mem_target_mb as nat
        } else {
            0
        },
    ) + " MB  Disk: ".spec_bytes() + disk_text(s) + "  Sample: ".spec_bytes() + decimal(
        s.sample_ms as nat,
    ) + "ms".spec_bytes()
}

/// The line that tells how long the run has lasted, how long it is to
/// last if that is limited, and how much time the charts span.
pub open spec fn elapsed_text(elapsed_s: u64, duration_s: u64, window_s: u64) -> Seq<u8> {
    "Elapsed: ".spec_bytes() + decimal(elapsed_s as nat) + (if duration_s > 0 {
        "s / ".spec_bytes() + decimal(duration_s as nat)
    } else {
        Seq::<u8>::empty()
    }) + "s  Window: ".spec_bytes() + decimal(window_s as nat) + "s".spec_bytes()
}

/// The temperature in degrees with one decimal.
pub open spec fn temp_text(temp_c: Option<i64>) -> Seq<u8> {
    match temp_c {
        Some(t) => signed_fixed_text(t as int, 1) + "C".spec_bytes(),
        None => absent_text(),
    }
}

/// The frequency in gigahertz with two decimals.
pub open spec fn freq_ghz_text(freq_khz: Option<u64>) -> Seq<u8> {
    match freq_khz {
        Some(k) => scaled_text(round_div(k as nat, 10_000), 2) + "GHz".spec_bytes(),
        None => absent_text(),
    }
}

/// The three load averages with two decimals.
pub open spec fn load_text(load: Option<(i64, i64, i64)>) -> Seq<u8> {
    match load {
        Some(l) => signed_fixed_text(l.0 as int, 2) + seq![32u8] + signed_fixed_text(l.1 as int, 2)
            + seq![32u8] + signed_fixed_text(l.2 as int, 2),
        None => absent_text(),
    }
}

/// The sensor line: temperature, frequency, load and memory, each shown as
/// not available by itself.
pub open spec fn sensor_text(s: Sample) -> Seq<u8> {
    "SENS temp ".spec_bytes() + temp_text(s.temp_c) + "  freq ".spec_bytes() + freq_ghz_text(
        s.freq_khz,
    ) + "  load ".spec_bytes() + load_text(s.load) + "  mem ".spec_bytes() + decimal(
        s.mem_used_mb as nat,
    ) + seq![47u8] + decimal(s.mem_total_mb as nat) + " MB".spec_bytes()
}

/// A value of the graphics processor, padded to `width`.
pub open spec fn gpu_number(v: i64, decimals: nat, width: nat) -> Seq<u8> {
    padded_left(signed_fixed_text(v as int, decimals), width)
}

/// The line of the graphics processor.
pub open spec fn gpu_text(gpu: Option<GpuStatus>) -> Seq<u8> {
    match gpu {
        Some(g) => "GPU  util ".spec_bytes() + gpu_number(g.util, 1, 5) + "% mem ".spec_bytes()
            + gpu_number(g.mem_util, 1, 5) + "% temp ".spec_bytes() + gpu_number(g.temp, 1, 5)
            + "C sm ".spec_bytes() + gpu_number(g.sm_clock, 0, 4) + "MHz mem ".spec_bytes()
            + gpu_number(g.mem_clock, 0, 4) + "MHz".spec_bytes(),
        None => "GPU  n/a".spec_bytes(),
    }
}

/// The rate summary under a chart: the current rate, and the mean and the
/// greatest rate of the window.
pub open spec fn ops_text(label: Seq<u8>, unit: Seq<u8>, current: u64, window: Seq<u64>) -> Seq<
    u8,
> {
    let stats = window_stats_spec(window);
    label + ": ".spec_bytes() + rate_text(current as nat, unit) + " (avg ".spec_bytes()
        + rate_text(stats.1 as nat, unit) + ", max ".spec_bytes() + rate_text(
        stats.2 as nat,
        unit,
    ) + seq![41u8]
}

/// The chart block of a history: statistics over the samples held, one
/// column per slot, oldest sample at the left, slots not yet reached drawn
/// as zero.
pub open spec fn ring_block(
    label: Seq<u8>,
    unit: Seq<u8>,
    current: u64,
    ring: RingBuffer,
    scale: u64,
    height: int,
) -> Seq<Seq<u8>> {
    chart_block(label, unit, current, ring@, padded(ring@, ring.cap()), scale, height)
}

/// The lines before the charts.
pub open spec fn head_lines(settings: Settings, sampler: Sampler, s: Sample) -> Seq<Seq<u8>> {
    seq![
        title_text(),
        settings_text(settings),
        elapsed_text(
            s.elapsed_ms / 1000,
            settings.duration_s,
            clip_u64(((sampler.cpu_hist@.len() * sampler.interval_ms) / 1000) as nat),
        ),
        sensor_text(s),
    ] + (if settings.show_gpu {
        seq![gpu_text(s.gpu)]
    } else {
        Seq::<Seq<u8>>::empty()
    })
}

/// The whole dashboard after the tick that gave the sample `s`: the lines
/// before the charts; for the processor, the memory and the disk a chart
/// block and a rate summary; the legend. The percentage charts are scaled to
/// one hundred percent, the disk chart to the peak seen so far.
pub open spec fn dashboard_spec(settings: Settings, sampler: Sampler, s: Sample) -> Seq<Seq<u8>> {
    let h = settings.height as int;
    head_lines(settings, sampler, s) + ring_block(
        "CPU".spec_bytes(),
        "%".spec_bytes(),
        s.cpu_pct,
        sampler.cpu_hist,
        PERCENT_SCALE,
        h,
    ) + seq![
        ops_text("CPU ops/s".spec_bytes(), "ops/s".spec_bytes(), s.cpu_ops_s, sampler.cpu_ops_hist@),
    ] + ring_block(
        "MEM".spec_bytes(),
        "%".spec_bytes(),
        s.mem_pct,
        sampler.mem_hist,
        PERCENT_SCALE,
        h,
    ) + seq![
        ops_text("MEM ops/s".spec_bytes(), "ops/s".spec_bytes(), s.mem_ops_s, sampler.mem_ops_hist@),
    ] + ring_block(
        "DSK".spec_bytes(),
        "MB/s".spec_bytes(),
        s.disk_mb_s,
        sampler.disk_hist,
        sampler.disk_peak,
        h,
    ) + seq![
        ops_text("DSK IOPS".spec_bytes(), "IOPS".spec_bytes(), s.disk_iops, sampler.disk_ops_hist@),
    ] + seq![legend_text()]
}

/// The text of a literal.
fn literal(text: &str) -> (r: Vec<u8>)
    ensures
        r@ == text.spec_bytes(),
{
    let mut out: Vec<u8> = Vec::new();
    push_str(&mut out, text);
    assert(out@ =~= text.spec_bytes());
    out
}

/// The line that sums up the settings.
pub fn settings_line(s: &Settings) -> (r: Vec<u8>)
    ensures
        r@ == settings_text(*s),
{
    let mut out: Vec<u8> = Vec::new();
    push_str(&mut out, "CPU workers: ");
    push_decimal(&mut out, s.cpu_workers as u64);
    push_str(&mut out, "  Mem target: ");
    push_decimal(
        &mut out,
        if s.enable_mem {
            s.mem_target_mb
        } else {
            0
        },
    );
    push_str(&mut out, " MB  Disk: ");
    let ghost before_disk = out@;
    if s.enable_disk {
        let num: u128 = s.disk_bytes as u128 * 10;
        let q: u128 = num / (GIB as u128);
        let rem: u128 = num % (GIB as u128);
        let tenths: u64 = (q + if 2 * rem >= GIB as u128 {
            1u128
        } else {
            0u128
        }) as u64;
        push_scaled(&mut out, tenths, 1);
        push_str(&mut out, " GB");
    } else {
        push_str(&mut out, "off");
    }
    assert(out@ =~= before_disk + disk_text(*s));
    push_str(&mut out, "  Sample: ");
    push_decimal(&mut out, s.sample_ms);
    push_str(&mut out, "ms");
    assert(out@ =~= settings_text(*s));
    out
}

/// The line that tells how long the run has lasted.
pub fn elapsed_line(elapsed_s: u64, duration_s: u64, window_s: u64) -> (r: Vec<u8>)
    ensures
        r@ == elapsed_text(elapsed_s, duration_s, window_s),
{
    let mut out: Vec<u8> = Vec::new();
    push_str(&mut out, "Elapsed: ");
    push_decimal(&mut out, elapsed_s);
    if duration_s > 0 {
        push_str(&mut out, "s / ");
        push_decimal(&mut out, duration_s);
    }
    push_str(&mut out, "s  Window: ");
    push_decimal(&mut out, window_s);
    push_str(&mut out, "s");
    assert(out@ =~= elapsed_text(elapsed_s, duration_s, window_s));
    out
}

/// The sensor line.
pub fn sensor_line(s: &Sample) -> (r: Vec<u8>)
    ensures
        r@ == sensor_text(*s),
{
    let mut out: Vec<u8> = Vec::new();
    push_str(&mut out, "SENS temp ");
    let ghost g0 = out@;
    match s.temp_c {
        Some(t) => {
            push_signed_fixed(&mut out, t, 1);
            push_str(&mut out, "C");
        },
        None => {
            push_str(&mut out, "n/a");
        },
    }
    assert(out@ =~= g0 + temp_text(s.temp_c));
    push_str(&mut out, "  freq ");
    let ghost g1 = out@;
    match s.freq_khz {
        Some(k) => {
            let h: u64 = k / 10_000 + if 2 * (k % 10_000) >= 10_000 {
                1u64
            } else {
                0u64
            };
            push_scaled(&mut out, h, 2);
            push_str(&mut out, "GHz");
        },
        None => {
            push_str(&mut out, "n/a");
        },
    }
    assert(out@ =~= g1 + freq_ghz_text(s.freq_khz));
    push_str(&mut out, "  load ");
    let ghost g2 = out@;
    match s.load {
        Some(l) => {
            push_signed_fixed(&mut out, l.0, 2);
            out.push(32);
            push_signed_fixed(&mut out, l.1, 2);
            out.push(32);
            push_signed_fixed(&mut out, l.2, 2);
        },
        None => {
            push_str(&mut out, "n/a");
        },
    }
    assert(out@ =~= g2 + load_text(s.load));
    push_str(&mut out, "  mem ");
    push_decimal(&mut out, s.mem_used_mb);
    out.push(47);
    push_decimal(&mut out, s.mem_total_mb);
    push_str(&mut out, " MB");
    assert(out@ =~= sensor_text(*s));
    out
}

/// Appends a value of the graphics processor.
fn push_gpu_number(out: &mut Vec<u8>, v: i64, decimals: u8, width: usize)
    requires
        decimals <= 3,
    ensures
        final(out)@ == old(out)@ + gpu_number(v, decimals as nat, width as nat),
{
    let mut text: Vec<u8> = Vec::new();
    push_signed_fixed(&mut text, v, decimals);
    assert(text@ =~= signed_fixed_text(v as int, decimals as nat));
    push_padded_left(out, text.as_slice(), width);
}

/// The line of the graphics processor.
pub fn gpu_line(gpu: &Option<GpuStatus>) -> (r: Vec<u8>)
    ensures
        r@ == gpu_text(*gpu),
{
    let mut out: Vec<u8> = Vec::new();
    match gpu {
        Some(g) => {
            push_str(&mut out, "GPU  util ");
            push_gpu_number(&mut out, g.util, 1, 5);
            push_str(&mut out, "% mem ");
            push_gpu_number(&mut out, g.mem_util, 1, 5);
            push_str(&mut out, "% temp ");
            push_gpu_number(&mut out, g.temp, 1, 5);
            push_str(&mut out, "C sm ");
            push_gpu_number(&mut out, g.sm_clock, 0, 4);
            push_str(&mut out, "MHz mem ");
            push_gpu_number(&mut out, g.mem_clock, 0, 4);
            push_str(&mut out, "MHz");
        },
        None => {
            push_str(&mut out, "GPU  n/a");
        },
    }
    assert(out@ =~= gpu_text(*gpu));
    out
}

/// The rate summary of a history.
pub fn ops_line(label: &str, unit: &str, current: u64, ring: &RingBuffer) -> (r: Vec<u8>)
    requires
        ring.wf(),
    ensures
        r@ == ops_text(label.spec_bytes(), unit.spec_bytes(), current, ring@),
{
    let stats: (u64, u64, u64) = ring.window_stats();
    let mut out: Vec<u8> = Vec::new();
    push_str(&mut out, label);
    push_str(&mut out, ": ");
    let cur: Vec<u8> = format_rate(current, unit);
    crate::numfmt::push_bytes(&mut out, cur.as_slice());
    push_str(&mut out, " (avg ");
    let avg: Vec<u8> = format_rate(stats.1, unit);
    crate::numfmt::push_bytes(&mut out, avg.as_slice());
    push_str(&mut out, ", max ");
    let max: Vec<u8> = format_rate(stats.2, unit);
    crate::numfmt::push_bytes(&mut out, max.as_slice());
    out.push(41);
    assert(out@ =~= ops_text(label.spec_bytes(), unit.spec_bytes(), current, ring@));
    out
}

/// The chart block of a history.
pub fn render_ring(
    label: &str,
    unit: &str,
    current: u64,
    ring: &RingBuffer,
    scale: u64,
    height: usize,
) -> (lines: Vec<Vec<u8>>)
    requires
        ring.wf(),
        height >= 2,
    ensures
        lines_view(lines@) == ring_block(
            label.spec_bytes(),
            unit.spec_bytes(),
            current,
            *ring,
            scale,
            height as int,
        ),
{
    proof {
        ring.lemma_wf();
        assert(crate::chart::chart_columns(
            ring.slots(),
            ring.head_spec(),
            ring.cap() as int,
        ) =~= crate::ring::rotated(ring.slots(), ring.head_spec()));
    }
    render_chart(
        label,
        unit,
        current,
        ring.as_slice(),
        ring.head(),
        ring.len(),
        scale,
        ring.capacity(),
        height,
    )
}

/// Appends the lines of `more` to `lines`.
fn append_lines(lines: &mut Vec<Vec<u8>>, more: Vec<Vec<u8>>)
    ensures
        lines_view(final(lines)@) == lines_view(old(lines)@) + lines_view(more@),
{
    let ghost added = more@;
    let mut more = more;
    lines.append(&mut more);
    assert(lines_view(lines@) =~= lines_view(old(lines)@) + lines_view(added));
}

/// Appends one line to `lines`.
fn append_line(lines: &mut Vec<Vec<u8>>, line: Vec<u8>)
    ensures
        lines_view(final(lines)@) == lines_view(old(lines)@) + seq![line@],
{
    let ghost before = lines_view(lines@);
    lines.push(line);
    assert(lines_view(lines@) =~= before + seq![line@]);
}

/// The dashboard after the tick that gave the sample `s`, top to bottom.
pub fn dashboard(settings: &Settings, sampler: &Sampler, s: &Sample) -> (lines: Vec<Vec<u8>>)
    requires
        sampler.wf(),
        settings.height >= 2,
    ensures
        lines_view(lines@) == dashboard_spec(*settings, *sampler, *s),
{
    let h: usize = settings.height;
    let mut lines: Vec<Vec<u8>> = Vec::new();
    assert(lines_view(lines@) =~= Seq::<Seq<u8>>::empty());
    append_line(&mut lines, literal("Rust Stress All - Ctrl+C to stop"));
    append_line(&mut lines, settings_line(settings));
    append_line(
        &mut lines,
        elapsed_line(s.elapsed_ms / 1000, settings.duration_s, sampler.window_seconds()),
    );
    append_line(&mut lines, sensor_line(s));
    if settings.show_gpu {
        append_line(&mut lines, gpu_line(&s.gpu));
    }
    assert(lines_view(lines@) =~= head_lines(*settings, *sampler, *s));
    append_lines(&mut lines, render_ring("CPU", "%", s.cpu_pct, &sampler.cpu_hist, PERCENT_SCALE, h));
    append_line(&mut lines, ops_line("CPU ops/s", "ops/s", s.cpu_ops_s, &sampler.cpu_ops_hist));
    append_lines(&mut lines, render_ring("MEM", "%", s.mem_pct, &sampler.mem_hist, PERCENT_SCALE, h));
    append_line(&mut lines, ops_line("MEM ops/s", "ops/s", s.mem_ops_s, &sampler.mem_ops_hist));
    append_lines(
        &mut lines,
        render_ring("DSK", "MB/s", s.disk_mb_s, &sampler.disk_hist, sampler.disk_peak, h),
    );
    append_line(&mut lines, ops_line("DSK IOPS", "IOPS", s.disk_iops, &sampler.disk_ops_hist));
    append_line(
        &mut lines,
        literal("Legend: '*' sample, '|' join. Disk scale uses peak MB/s in window."),
    );
    lines
}

} // verus!
