use stress_all::args::Settings;
use stress_all::dashboard::{
    dashboard, elapsed_line, gpu_line, ops_line, render_ring, sensor_line, settings_line,
};
use stress_all::record::{
    header_fields, join_fields, record_fields, record_header, record_line, RecordStyle,
    FIELD_COUNT,
};
use stress_all::ring::RingBuffer;
use stress_all::sampler::{Readings, Sample, Sampler};
use stress_all::sources::{read_gpu_status, GpuStatus};

fn s(bytes: Vec<u8>) -> String {
    String::from_utf8(bytes).unwrap()
}

fn sample() -> Sample {
    Sample {
        elapsed_ms: 1500,
        cpu_pct: 50_000,
        mem_pct: 50_000,
        disk_mb_s: 10_000,
        cpu_ops_s: 2_000_000,
        mem_ops_s: 0,
        disk_iops: 10_000,
        temp_c: Some(52_000),
        freq_khz: Some(2_400_000),
        load: Some((520, 580, 590)),
        mem_used_mb: 7812,
        mem_total_mb: 15625,
        gpu: None,
    }
}

fn gpu() -> GpuStatus {
    GpuStatus { util: 45_000, mem_util: 12_000, temp: 60_000, sm_clock: 1_500_000, mem_clock: 5_001_000 }
}

fn settings() -> Settings {
    Settings {
        duration_s: 2,
        cpu_workers: 4,
        enable_mem: true,
        mem_target_mb: 9600,
        enable_disk: true,
        disk_bytes: 1 << 30,
        sample_ms: 500,
        width: 20,
        height: 4,
        show_gpu: true,
        log: false,
    }
}

#[test]
fn header_names_the_fields() {
    assert_eq!(
        s(record_header()),
        "ts,cpu_pct,mem_pct,disk_mb_s,cpu_ops_s,mem_ops_s,disk_iops,temp_c,cpu_freq_ghz,\
load1,load5,load15,mem_used_mb,mem_total_mb,gpu_util,gpu_mem_util,gpu_temp_c,\
gpu_sm_clock_mhz,gpu_mem_clock_mhz"
    );
    assert_eq!(header_fields().len(), FIELD_COUNT);
}

#[test]
fn log_record() {
    assert_eq!(
        s(record_line(&sample(), RecordStyle::Log)),
        "1.500,50.00,50.00,10.00,2000.00,0.00,10.00,52.00,2.400,0.52,0.58,0.59,7812,15625,\
-1.00,-1.00,-1.00,-1,-1"
    );
}

#[test]
fn stream_record() {
    assert_eq!(
        s(record_line(&sample(), RecordStyle::Stream)),
        "1.500,50.0,50.0,10.0,2000.00,0.00,10.00,52.0,2.400,0.52,0.58,0.59,7812,15625,\
-1.0,-1.0,-1.0,-1,-1"
    );
}

#[test]
fn record_with_gpu() {
    let mut with = sample();
    with.gpu = Some(gpu());
    let line = s(record_line(&with, RecordStyle::Log));
    assert!(line.ends_with(",7812,15625,45.00,12.00,60.00,1500,5001"));
}

#[test]
fn record_without_any_sensor() {
    let mut bare = sample();
    bare.temp_c = None;
    bare.freq_khz = None;
    bare.load = None;
    assert_eq!(
        s(record_line(&bare, RecordStyle::Log)),
        "1.500,50.00,50.00,10.00,2000.00,0.00,10.00,-1.00,-1.000,-1.00,-1.00,-1.00,7812,15625,\
-1.00,-1.00,-1.00,-1,-1"
    );
}

#[test]
fn missing_gpu_source_gives_five_sentinels() {
    // The source could not be read: there is no text to take a status from.
    let status: Option<GpuStatus> = None;
    let mut sampler = Sampler::new(4, 1000, &readings(0, status));
    for tick in 1..=3u64 {
        let sample = sampler.tick(&readings(tick * 1000, status));
        assert_eq!(sample.gpu, None);
        for style in [RecordStyle::Log, RecordStyle::Stream] {
            let fields = record_fields(&sample, style);
            let tail: Vec<String> = fields[14..].iter().map(|f| s(f.clone())).collect();
            let coarse = if style == RecordStyle::Log { "-1.00" } else { "-1.0" };
            assert_eq!(tail, [coarse, coarse, coarse, "-1", "-1"]);
        }
    }
    // An empty or malformed source gives the same.
    assert_eq!(read_gpu_status(b""), None);
    assert_eq!(read_gpu_status(b"not,a,status"), None);
}

fn readings(elapsed_ms: u64, gpu: Option<GpuStatus>) -> Readings {
    Readings {
        elapsed_ms,
        cpu_times: None,
        mem_kb: None,
        disk_bytes: 0,
        cpu_ops: 0,
        mem_ops: 0,
        disk_ops: 0,
        temp_c: None,
        freq_khz: None,
        load: None,
        gpu,
    }
}

#[test]
fn log_of_two_ticks_has_a_header_and_two_lines_of_equal_field_count() {
    let mut log: Vec<u8> = Vec::new();
    log.extend(record_header());
    log.push(b'\n');
    let mut sampler = Sampler::new(4, 1000, &readings(0, None));
    for tick in 1..=2u64 {
        let sample = sampler.tick(&readings(tick * 1000, Some(gpu())));
        log.extend(record_line(&sample, RecordStyle::Log));
        log.push(b'\n');
    }
    let text = s(log);
    let lines: Vec<&str> = text.lines().collect();
    assert_eq!(lines.len(), 3);
    assert!(lines[0].starts_with("ts,"));
    assert!(lines[1].starts_with("1.000,"));
    assert!(lines[2].starts_with("2.000,"));
    for line in &lines {
        assert_eq!(line.split(',').count(), FIELD_COUNT);
    }
    assert_eq!(lines.iter().filter(|l| l.starts_with("ts,")).count(), 1);
}

#[test]
fn fields_are_joined_with_the_separator() {
    assert_eq!(join_fields(&vec![b"a".to_vec(), b"".to_vec(), b"c".to_vec()], b','), b"a,,c");
    assert_eq!(join_fields(&vec![b"a".to_vec()], b';'), b"a");
    assert_eq!(join_fields(&vec![], b','), b"");
    assert_eq!(record_fields(&sample(), RecordStyle::Log).len(), FIELD_COUNT);
}

#[test]
fn settings_lines() {
    assert_eq!(
        s(settings_line(&settings())),
        "CPU workers: 4  Mem target: 9600 MB  Disk: 1.0 GB  Sample: 500ms"
    );
    let mut off = settings();
    off.enable_mem = false;
    off.enable_disk = false;
    assert_eq!(
        s(settings_line(&off)),
        "CPU workers: 4  Mem target: 0 MB  Disk: off  Sample: 500ms"
    );
    let mut half = settings();
    half.disk_bytes = 1 << 29;
    assert!(s(settings_line(&half)).contains("Disk: 0.5 GB"));
}

#[test]
fn elapsed_lines() {
    assert_eq!(s(elapsed_line(1, 2, 0)), "Elapsed: 1s / 2s  Window: 0s");
    assert_eq!(s(elapsed_line(75, 0, 20)), "Elapsed: 75s  Window: 20s");
}

#[test]
fn sensor_lines() {
    assert_eq!(
        s(sensor_line(&sample())),
        "SENS temp 52.0C  freq 2.40GHz  load 0.52 0.58 0.59  mem 7812/15625 MB"
    );
    let mut bare = sample();
    bare.temp_c = None;
    bare.freq_khz = None;
    bare.load = None;
    assert_eq!(s(sensor_line(&bare)), "SENS temp n/a  freq n/a  load n/a  mem 7812/15625 MB");
    let mut part = sample();
    part.freq_khz = None;
    assert_eq!(
        s(sensor_line(&part)),
        "SENS temp 52.0C  freq n/a  load 0.52 0.58 0.59  mem 7812/15625 MB"
    );
}

#[test]
fn gpu_lines() {
    assert_eq!(
        s(gpu_line(&Some(gpu()))),
        "GPU  util  45.0% mem  12.0% temp  60.0C sm 1500MHz mem 5001MHz"
    );
    assert_eq!(s(gpu_line(&None)), "GPU  n/a");
}

#[test]
fn rate_summary() {
    let mut ring = RingBuffer::new(4);
    ring.push(1_000_000);
    ring.push(3_000_000);
    assert_eq!(
        s(ops_line("CPU ops/s", "ops/s", 3_000_000, &ring)),
        "CPU ops/s: 3.00Kops/s (avg 2.00Kops/s, max 3.00Kops/s)"
    );
    let empty = RingBuffer::new(4);
    assert_eq!(s(ops_line("DSK IOPS", "IOPS", 0, &empty)), "DSK IOPS: 0.00IOPS (avg 0.00IOPS, max 0.00IOPS)");
}

#[test]
fn chart_of_a_history_shows_the_oldest_sample_at_the_left() {
    let mut ring = RingBuffer::new(4);
    for v in [100_000u64, 0, 50_000] {
        ring.push(v);
    }
    let block: Vec<String> =
        render_ring("CPU", "%", 50_000, &ring, 100_000, 3).into_iter().map(s).collect();
    assert_eq!(
        block,
        [
            "CPU   50.0% (min    0.0 avg   50.0 max  100.0)",
            "   100| *| ",
            "    50| ||*",
            "     0|*|*|",
            "      +----",
        ]
    );
    // After wraparound the window has moved on by two.
    for v in [0u64, 100_000] {
        ring.push(v);
    }
    let block: Vec<String> =
        render_ring("CPU", "%", 100_000, &ring, 100_000, 3).into_iter().map(s).collect();
    assert_eq!(block[1], "   100|   *");
    assert_eq!(block[2], "    50| *||");
    assert_eq!(block[3], "     0|*|*|");
}

#[test]
fn whole_dashboard() {
    let mut sampler = Sampler::new(20, 500, &readings(0, None));
    let mut r = readings(1500, Some(gpu()));
    r.cpu_ops = 1000;
    r.temp_c = Some(52_000);
    let sample = sampler.tick(&r);
    let lines: Vec<String> = dashboard(&settings(), &sampler, &sample).into_iter().map(s).collect();
    assert_eq!(lines.len(), 5 + 3 * (4 + 2 + 1) + 1);
    assert_eq!(lines[0], "Rust Stress All - Ctrl+C to stop");
    assert_eq!(lines[1], "CPU workers: 4  Mem target: 9600 MB  Disk: 1.0 GB  Sample: 500ms");
    assert_eq!(lines[2], "Elapsed: 1s / 2s  Window: 0s");
    assert_eq!(lines[3], "SENS temp 52.0C  freq n/a  load n/a  mem 0/0 MB");
    assert_eq!(lines[4], "GPU  util  45.0% mem  12.0% temp  60.0C sm 1500MHz mem 5001MHz");
    assert_eq!(lines[5], "CPU    0.0% (min    0.0 avg    0.0 max    0.0)");
    assert_eq!(lines[6], format!("   100|{}", " ".repeat(20)));
    assert_eq!(lines[9], format!("     0|{}", "*".repeat(20)));
    assert_eq!(lines[10], format!("      +{}", "-".repeat(20)));
    assert_eq!(lines[11], "CPU ops/s: 2.00Kops/s (avg 2.00Kops/s, max 2.00Kops/s)");
    assert_eq!(lines[12], "MEM    0.0% (min    0.0 avg    0.0 max    0.0)");
    assert_eq!(lines[18], "MEM ops/s: 0.00ops/s (avg 0.00ops/s, max 0.00ops/s)");
    assert_eq!(lines[19], "DSK    0.0MB/s (min    0.0 avg    0.0 max    0.0)");
    assert_eq!(lines[20], format!("     1|{}", " ".repeat(20)));
    assert_eq!(lines[25], "DSK IOPS: 0.00IOPS (avg 0.00IOPS, max 0.00IOPS)");
    assert_eq!(lines[26], "Legend: '*' sample, '|' join. Disk scale uses peak MB/s in window.");

    let mut plain = settings();
    plain.show_gpu = false;
    plain.duration_s = 0;
    let lines: Vec<String> = dashboard(&plain, &sampler, &sample).into_iter().map(s).collect();
    assert_eq!(lines.len(), 4 + 3 * 7 + 1);
    assert_eq!(lines[2], "Elapsed: 1s  Window: 0s");
    assert!(lines[4].starts_with("CPU "));
}
