use stress_all::lifecycle::{Action, Lifecycle, Phase, StopFlag};
use stress_all::sampler::{Counters, Readings, Sample, Sampler};
use stress_all::workers::CpuWorker;

fn readings(elapsed_ms: u64) -> Readings {
    Readings {
        elapsed_ms,
        cpu_times: None,
        mem_kb: None,
        disk_bytes: 0,
        cpu_ops: 0,
        mem_ops: 0,
        disk_ops: 0,
        temp_c: None,
        freq_khz: None,
        load: None,
        gpu: None,
    }
}

#[test]
fn one_tick() {
    let mut base = readings(0);
    base.cpu_times = Some((1000, 800));
    let mut sampler = Sampler::new(20, 500, &base);
    let mut r = readings(500);
    r.cpu_times = Some((1100, 850));
    r.mem_kb = Some((16_000_000, 8_000_000));
    r.disk_bytes = 5 * 1024 * 1024;
    r.cpu_ops = 1000;
    r.disk_ops = 5;
    r.temp_c = Some(52_000);
    r.freq_khz = Some(2_400_000);
    r.load = Some((520, 580, 590));
    let s = sampler.tick(&r);
    assert_eq!(
        s,
        Sample {
            elapsed_ms: 500,
            cpu_pct: 50_000,
            mem_pct: 50_000,
            disk_mb_s: 10_000,
            cpu_ops_s: 2_000_000,
            mem_ops_s: 0,
            disk_iops: 10_000,
            temp_c: Some(52_000),
            freq_khz: Some(2_400_000),
            load: Some((520, 580, 590)),
            mem_used_mb: 7812,
            mem_total_mb: 15625,
            gpu: None,
        }
    );
    assert_eq!(sampler.disk_peak, 10_000);
    assert_eq!(sampler.prev_cpu, Some((1100, 850)));
    assert_eq!(
        sampler.prev,
        Counters { disk_bytes: 5 * 1024 * 1024, cpu_ops: 1000, mem_ops: 0, disk_ops: 5 }
    );
    assert_eq!(sampler.cpu_hist.to_vec(), vec![50_000]);
    assert_eq!(sampler.disk_hist.to_vec(), vec![10_000]);
    assert_eq!(sampler.cpu_ops_hist.to_vec(), vec![2_000_000]);
    assert_eq!(sampler.disk_ops_hist.to_vec(), vec![10_000]);
    assert_eq!(sampler.window_seconds(), 0);
}

#[test]
fn disk_peak_never_falls() {
    let mut sampler = Sampler::new(4, 1000, &readings(0));
    assert_eq!(sampler.disk_peak, 1000);
    let mut r = readings(1000);
    r.disk_bytes = 512 * 1024;
    assert_eq!(sampler.tick(&r).disk_mb_s, 500);
    assert_eq!(sampler.disk_peak, 1000);
    r.disk_bytes += 8 * 1024 * 1024;
    assert_eq!(sampler.tick(&r).disk_mb_s, 8000);
    assert_eq!(sampler.disk_peak, 8000);
    assert_eq!(sampler.tick(&r).disk_mb_s, 0);
    assert_eq!(sampler.disk_peak, 8000);
    assert_eq!(sampler.disk_hist.to_vec(), vec![500, 8000, 0]);
    assert_eq!(sampler.window_seconds(), 3);
}

#[test]
fn utilisation_needs_two_readings() {
    let mut sampler = Sampler::new(4, 1000, &readings(0));
    let mut r = readings(1000);
    r.cpu_times = Some((500, 100));
    assert_eq!(sampler.tick(&r).cpu_pct, 0);
    r.cpu_times = Some((700, 150));
    assert_eq!(sampler.tick(&r).cpu_pct, 75_000);
    r.cpu_times = None;
    assert_eq!(sampler.tick(&r).cpu_pct, 0);
    assert_eq!(sampler.prev_cpu, Some((700, 150)));
    r.cpu_times = Some((800, 250));
    assert_eq!(sampler.tick(&r).cpu_pct, 0);
    r.cpu_times = Some((800, 250));
    assert_eq!(sampler.tick(&r).cpu_pct, 0);
}

#[test]
fn counters_that_went_backwards_give_zero() {
    let mut base = readings(0);
    base.cpu_ops = 1000;
    base.disk_bytes = 1 << 30;
    base.cpu_times = Some((900, 100));
    let mut sampler = Sampler::new(4, 1000, &base);
    let mut r = readings(1000);
    r.cpu_ops = 10;
    r.disk_bytes = 0;
    r.cpu_times = Some((100, 50));
    let s = sampler.tick(&r);
    assert_eq!((s.cpu_ops_s, s.disk_mb_s, s.cpu_pct), (0, 0, 0));
}

#[test]
fn memory_without_a_reading_is_zero() {
    let mut sampler = Sampler::new(4, 1000, &readings(0));
    let s = sampler.tick(&readings(1000));
    assert_eq!((s.mem_pct, s.mem_used_mb, s.mem_total_mb), (0, 0, 0));
    let mut r = readings(2000);
    r.mem_kb = Some((0, 0));
    assert_eq!(sampler.tick(&r).mem_pct, 0);
}

#[test]
fn histories_wrap_around_together() {
    let mut sampler = Sampler::new(3, 1000, &readings(0));
    let mut r = readings(0);
    for i in 1..=5u64 {
        r.elapsed_ms = i * 1000;
        r.cpu_ops += i;
        sampler.tick(&r);
    }
    assert_eq!(sampler.cpu_ops_hist.to_vec(), vec![3000, 4000, 5000]);
    assert_eq!(sampler.cpu_hist.len(), 3);
    assert_eq!(sampler.window_seconds(), 3);
}

#[test]
fn stop_flag_set_twice_is_set_once() {
    let mut once = StopFlag::new();
    assert!(!once.is_set());
    once.request();
    let mut twice = StopFlag::new();
    twice.request();
    twice.request();
    assert!(once.is_set());
    assert_eq!(once, twice);

    let mut a = Lifecycle::new(0, 1000);
    a.start(10, false);
    let mut b = a;
    a.request_stop();
    b.request_stop();
    b.request_stop();
    assert_eq!(a, b);
    assert_eq!(a.poll(10), b.poll(10));
    assert_eq!(a, b);
}

#[test]
fn run_of_two_seconds_gives_four_samples() {
    let mut life = Lifecycle::new(2, 500);
    assert_eq!(life.phase, Phase::Idle);
    assert_eq!(life.poll(0), Action::Nothing);
    life.start(0, false);
    assert_eq!(life.phase, Phase::Running);

    let mut worker = CpuWorker::new(1);
    let mut cpu_ops = 0u64;
    let mut base = readings(0);
    base.mem_kb = Some((16_000_000, 4_000_000));
    let mut sampler = Sampler::new(20, 500, &base);

    let mut now = 0u64;
    let mut samples: Vec<Sample> = Vec::new();
    loop {
        match life.poll(now) {
            Action::Sample { wait_ms } => {
                if wait_ms > 0 {
                    cpu_ops += worker.step().ops;
                }
                now += wait_ms;
                let mut r = readings(now);
                r.cpu_ops = cpu_ops;
                r.mem_kb = base.mem_kb;
                samples.push(sampler.tick(&r));
            }
            Action::Wait { wait_ms } => now += wait_ms,
            Action::StopAndJoin => break,
            other => panic!("unexpected {:?}", other),
        }
    }
    assert_eq!(samples.len(), 4);
    let times: Vec<u64> = samples.iter().map(|s| s.elapsed_ms).collect();
    assert_eq!(times, vec![0, 500, 1000, 1500]);
    assert_eq!(now, 2000);
    for (i, s) in samples.iter().enumerate() {
        assert_eq!(s.disk_mb_s, 0);
        assert_eq!(s.disk_iops, 0);
        assert_eq!(s.mem_total_mb, 15625);
        assert_eq!(s.mem_used_mb, 3906);
        assert_eq!(s.mem_pct, 25_000);
        assert_eq!(s.gpu, None);
        if i > 0 {
            assert!(s.cpu_ops_s > 0);
        }
    }
    assert_eq!(life.phase, Phase::Draining);
    assert!(life.stop.is_set());
    assert_eq!(life.poll(now), Action::StopAndJoin);
    assert_eq!(life.workers_joined(), Action::Finish);
    assert_eq!(life.phase, Phase::Stopped);
    assert_eq!(life.poll(now), Action::Finish);
    assert_eq!(life.workers_joined(), Action::Nothing);
}

#[test]
fn ticks_do_not_drift() {
    let mut life = Lifecycle::new(0, 1000);
    life.start(100, true);
    assert_eq!(life.poll(100), Action::Sample { wait_ms: 0 });
    assert_eq!(life.deadline_ms, 1100);
    // The caller comes back late: no wait, and the next deadline does not move.
    assert_eq!(life.poll(1350), Action::Sample { wait_ms: 0 });
    assert_eq!(life.deadline_ms, 2100);
    assert_eq!(life.poll(1400), Action::Sample { wait_ms: 700 });
    assert_eq!(life.deadline_ms, 3100);
}

#[test]
fn stop_request_leads_to_draining_and_cleanup() {
    let mut life = Lifecycle::new(0, 1000);
    life.start(0, true);
    assert_eq!(life.poll(0), Action::Sample { wait_ms: 0 });
    life.request_stop();
    assert_eq!(life.phase, Phase::Running);
    assert_eq!(life.poll(5), Action::StopAndJoin);
    assert_eq!(life.phase, Phase::Draining);
    assert_eq!(life.workers_joined(), Action::RemoveBackingFile);
    assert_eq!(life.phase, Phase::Stopped);
}

#[test]
fn unlimited_run_goes_on() {
    let mut life = Lifecycle::new(0, 250);
    life.start(0, false);
    let mut now = 0;
    for _ in 0..1000 {
        match life.poll(now) {
            Action::Sample { wait_ms } => now += wait_ms,
            other => panic!("unexpected {:?}", other),
        }
    }
    assert_eq!(now, 999 * 250);
}

#[test]
fn interval_has_a_floor() {
    let life = Lifecycle::new(1, 0);
    assert_eq!(life.interval_ms, 200);
    assert_eq!(Lifecycle::new(1, 5000).interval_ms, 5000);
}

#[test]
fn events_out_of_turn_change_nothing() {
    let mut life = Lifecycle::new(5, 1000);
    assert_eq!(life.workers_joined(), Action::Nothing);
    assert_eq!(life.phase, Phase::Idle);
    life.start(0, false);
    let running = life;
    life.start(99, true);
    assert_eq!(life, running);
    assert_eq!(life.workers_joined(), Action::Nothing);
    assert_eq!(life, running);
}

#[test]
fn a_limited_run_gives_duration_over_interval_samples() {
    for (duration_s, interval_ms) in [(1u64, 200u64), (2, 500), (3, 1000), (1, 300), (5, 999), (1, 5000)] {
        let mut life = Lifecycle::new(duration_s, interval_ms);
        life.start(40, false);
        let mut now = 40u64;
        let mut samples = 0u64;
        loop {
            match life.poll(now) {
                Action::Sample { wait_ms } => {
                    now += wait_ms;
                    samples += 1;
                }
                Action::Wait { wait_ms } => now += wait_ms,
                Action::StopAndJoin => break,
                other => panic!("unexpected {:?}", other),
            }
        }
        assert_eq!(samples, (duration_s * 1000 + interval_ms - 1) / interval_ms);
        assert_eq!(now, 40 + duration_s * 1000);
    }
}
