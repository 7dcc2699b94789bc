use stress_all::args::{parse_args, parse_usize, resolve, ArgError, Args, Opt};
use stress_all::config::{
    parse_duration, resolve_cpu_workers, resolve_disk_bytes, resolve_graph_height,
    resolve_graph_width, resolve_mem_target, resolve_sample_ms,
};

fn args(list: &[&str]) -> Vec<String> {
    list.iter().map(|s| s.to_string()).collect()
}

fn defaults() -> Args {
    Args {
        duration_s: 0,
        cpu_workers: 0,
        mem_mb: 0,
        disk_gb: 1000,
        temp_dir: None,
        enable_disk: true,
        enable_mem: true,
        sample_ms: 1000,
        csv_path: None,
        graph_width: 55,
        graph_height: 8,
        gpu_status_path: None,
    }
}

#[test]
fn durations() {
    assert_eq!(parse_duration("90"), Some(90));
    assert_eq!(parse_duration("90s"), Some(90));
    assert_eq!(parse_duration("2m"), Some(120));
    assert_eq!(parse_duration("0"), Some(0));
    assert_eq!(parse_duration("0m"), Some(0));
    assert_eq!(parse_duration("+5"), Some(5));
    assert_eq!(parse_duration("307445734561825860m"), Some(18446744073709551600));
}

#[test]
fn what_is_no_duration() {
    assert_eq!(parse_duration(""), None);
    assert_eq!(parse_duration("m"), None);
    assert_eq!(parse_duration("s"), None);
    assert_eq!(parse_duration("1.5m"), None);
    assert_eq!(parse_duration("10h"), None);
    assert_eq!(parse_duration("5ms"), None);
    assert_eq!(parse_duration("-1"), None);
    assert_eq!(parse_duration("307445734561825861m"), None);
}

#[test]
fn cpu_worker_count() {
    assert_eq!(resolve_cpu_workers(0, Some(8)), 8);
    assert_eq!(resolve_cpu_workers(3, Some(8)), 3);
    assert_eq!(resolve_cpu_workers(0, None), 1);
    assert_eq!(resolve_cpu_workers(0, Some(0)), 1);
}

#[test]
fn memory_target() {
    assert_eq!(resolve_mem_target(0, 16000), 9600);
    assert_eq!(resolve_mem_target(0, 100), 256);
    assert_eq!(resolve_mem_target(0, 0), 512);
    assert_eq!(resolve_mem_target(0, 100_000), 16384);
    assert_eq!(resolve_mem_target(1000, 16000), 1000);
    assert_eq!(resolve_mem_target(1, 16000), 256);
    assert_eq!(resolve_mem_target(100_000, 0), 16384);
    assert_eq!(resolve_mem_target(0, u64::MAX), 16384);
    assert_eq!(resolve_mem_target(0, 1001), 600);
}

#[test]
fn disk_size() {
    assert_eq!(resolve_disk_bytes(true, 1000), 1_073_741_824);
    assert_eq!(resolve_disk_bytes(true, 500), 536_870_912);
    assert_eq!(resolve_disk_bytes(true, 1), 1_073_741);
    assert_eq!(resolve_disk_bytes(true, 0), 1_073_741_824);
    assert_eq!(resolve_disk_bytes(true, -5), 1_073_741_824);
    assert_eq!(resolve_disk_bytes(false, 2000), 0);
    assert_eq!(resolve_disk_bytes(true, i64::MAX), u64::MAX);
}

#[test]
fn sampling_interval_has_a_floor() {
    assert_eq!(resolve_sample_ms(50), 200);
    assert_eq!(resolve_sample_ms(0), 200);
    assert_eq!(resolve_sample_ms(200), 200);
    assert_eq!(resolve_sample_ms(1000), 1000);
}

#[test]
fn chart_size() {
    assert_eq!(resolve_graph_width(0, Some(100)), 75);
    assert_eq!(resolve_graph_width(0, None), 55);
    assert_eq!(resolve_graph_width(0, Some(20)), 20);
    assert_eq!(resolve_graph_width(0, Some(30)), 20);
    assert_eq!(resolve_graph_width(0, Some(500)), 120);
    assert_eq!(resolve_graph_width(7, Some(100)), 7);
    assert_eq!(resolve_graph_height(8), 8);
    assert_eq!(resolve_graph_height(1), 4);
    assert_eq!(resolve_graph_height(100), 12);
}

#[test]
fn counts() {
    assert_eq!(parse_usize(b"12"), Some(12));
    assert_eq!(parse_usize(b""), None);
    assert_eq!(parse_usize(b"x"), None);
}

#[test]
fn empty_command_line() {
    assert_eq!(parse_args(&args(&[]), None), Ok(defaults()));
    let wide = parse_args(&args(&[]), Some(100)).unwrap();
    assert_eq!(wide.graph_width, 75);
}

#[test]
fn options_are_read_left_to_right() {
    let a = parse_args(
        &args(&[
            "--duration", "2m", "--no-disk", "--cpu-workers", "3", "--mem-mb", "2048",
            "--sample-ms", "500", "--csv", "out.csv", "--graph-width", "40", "--graph-height",
            "100", "--gpu-status", "/tmp/gpu", "--temp-dir", "/tmp/x", "--disk-gb", "0.5",
            "--duration", "7",
        ]),
        Some(100),
    )
    .unwrap();
    assert_eq!(
        a,
        Args {
            duration_s: 7,
            cpu_workers: 3,
            mem_mb: 2048,
            disk_gb: 500,
            temp_dir: Some("/tmp/x".to_string()),
            enable_disk: false,
            enable_mem: true,
            sample_ms: 500,
            csv_path: Some("out.csv".to_string()),
            graph_width: 40,
            graph_height: 12,
            gpu_status_path: Some("/tmp/gpu".to_string()),
        }
    );
}

#[test]
fn no_mem_switches_the_memory_role_off() {
    let a = parse_args(&args(&["--no-mem"]), None).unwrap();
    assert!(!a.enable_mem);
    assert!(a.enable_disk);
}

#[test]
fn command_lines_that_cannot_be_read() {
    assert_eq!(parse_args(&args(&["--bogus"]), None), Err(ArgError::Unknown { at: 0 }));
    assert_eq!(
        parse_args(&args(&["--no-mem", "extra"]), None),
        Err(ArgError::Unknown { at: 1 })
    );
    assert_eq!(
        parse_args(&args(&["--duration"]), None),
        Err(ArgError::MissingValue { opt: Opt::Duration })
    );
    assert_eq!(
        parse_args(&args(&["--no-disk", "--csv"]), None),
        Err(ArgError::MissingValue { opt: Opt::Csv })
    );
    assert_eq!(
        parse_args(&args(&["--duration", "x"]), None),
        Err(ArgError::Invalid { opt: Opt::Duration, at: 1 })
    );
    assert_eq!(
        parse_args(&args(&["--mem-mb", "12", "--disk-gb", "big"]), None),
        Err(ArgError::Invalid { opt: Opt::DiskGb, at: 3 })
    );
    assert_eq!(
        parse_args(&args(&["--cpu-workers", "-1"]), None),
        Err(ArgError::Invalid { opt: Opt::CpuWorkers, at: 1 })
    );
    assert_eq!(
        parse_args(&args(&["--graph-width", "1.5"]), None),
        Err(ArgError::Invalid { opt: Opt::GraphWidth, at: 1 })
    );
}

#[test]
fn help_ends_the_reading() {
    assert_eq!(parse_args(&args(&["-h"]), None), Err(ArgError::Help));
    assert_eq!(parse_args(&args(&["--no-mem", "--help", "--bogus"]), None), Err(ArgError::Help));
    assert_eq!(parse_args(&args(&["--bogus", "--help"]), None), Err(ArgError::Unknown { at: 0 }));
}

#[test]
fn an_option_takes_the_next_argument_whatever_it_is() {
    let a = parse_args(&args(&["--temp-dir", "--no-mem"]), None).unwrap();
    assert_eq!(a.temp_dir, Some("--no-mem".to_string()));
    assert!(a.enable_mem);
}

#[test]
fn settings_from_arguments() {
    let a = parse_args(
        &args(&["--duration", "2", "--sample-ms", "50", "--graph-width", "5", "--csv", "log"]),
        None,
    )
    .unwrap();
    let s = resolve(&a, 16000, Some(4));
    assert_eq!(s.duration_s, 2);
    assert_eq!(s.cpu_workers, 4);
    assert_eq!(s.mem_target_mb, 9600);
    assert!(s.enable_mem && s.enable_disk);
    assert_eq!(s.disk_bytes, 1_073_741_824);
    assert_eq!(s.sample_ms, 200);
    assert_eq!(s.width, 20);
    assert_eq!(s.height, 8);
    assert!(!s.show_gpu);
    assert!(s.log);
}

#[test]
fn settings_with_roles_off() {
    let a = parse_args(&args(&["--no-disk", "--no-mem", "--gpu-status", "g"]), None).unwrap();
    let s = resolve(&a, 0, None);
    assert_eq!(s.cpu_workers, 1);
    assert_eq!(s.mem_target_mb, 512);
    assert!(!s.enable_mem && !s.enable_disk);
    assert_eq!(s.disk_bytes, 0);
    assert_eq!(s.width, 55);
    assert!(s.show_gpu);
    assert!(!s.log);
}
