use stress_all::sources::{
    bytes_eq, cpu_dir_name, read_cpu_freq_khz, read_cpu_times, read_gpu_status, read_loadavg,
    read_mem_total_mb, read_mem_used_kb, read_second_number, read_temp_c, thermal_zone_name,
    GpuStatus,
};

const MEMINFO: &[u8] = b"MemTotal:       16000000 kB\n\
MemFree:         4000000 kB\n\
MemAvailable:    9000000 kB\n\
Buffers:          500000 kB\n\
Cached:          3500000 kB\n\
SwapCached:          123 kB\n";

#[test]
fn cpu_times_from_the_first_line() {
    let stat = b"cpu  100 20 30 400 50 6 7 8 9\ncpu0 1 2 3 4 5 6 7 8 9\n";
    assert_eq!(read_cpu_times(stat), Some((613, 450)));
}

#[test]
fn cpu_times_with_four_counters() {
    assert_eq!(read_cpu_times(b"cpu 1 2 3 4"), Some((10, 4)));
}

#[test]
fn cpu_times_pass_over_what_is_no_number() {
    assert_eq!(read_cpu_times(b"cpu 1 x 2 3 4 5"), Some((15, 9)));
}

#[test]
fn cpu_times_that_cannot_be_read() {
    assert_eq!(read_cpu_times(b""), None);
    assert_eq!(read_cpu_times(b"\n"), None);
    assert_eq!(read_cpu_times(b"cpu 1 2 3"), None);
    assert_eq!(read_cpu_times(b"cpu0 1 2 3 4"), None);
    assert_eq!(read_cpu_times(b"intr 1 2 3 4\ncpu 1 2 3 4"), None);
    let huge = b"cpu 18446744073709551615 1 1 1";
    assert_eq!(read_cpu_times(huge), None);
}

#[test]
fn memory_in_use() {
    assert_eq!(read_mem_used_kb(MEMINFO), Some((16000000, 8000000)));
    assert_eq!(read_mem_total_mb(MEMINFO), 15625);
}

#[test]
fn memory_more_free_than_total_counts_as_none_used() {
    let text = b"MemTotal: 100 kB\nMemFree: 90 kB\nCached: 20 kB\n";
    assert_eq!(read_mem_used_kb(text), Some((100, 0)));
}

#[test]
fn memory_last_line_of_a_kind_wins() {
    let text = b"MemTotal: 100 kB\nMemTotal: 200 kB\nMemFree: 50 kB\n";
    assert_eq!(read_mem_used_kb(text), Some((200, 150)));
}

#[test]
fn memory_that_cannot_be_read() {
    assert_eq!(read_mem_used_kb(b""), None);
    assert_eq!(read_mem_used_kb(b"MemFree: 5 kB\n"), None);
    assert_eq!(read_mem_used_kb(b"MemTotal: 0 kB\n"), None);
    assert_eq!(read_mem_used_kb(b"MemTotal: abc kB\n"), None);
    assert_eq!(read_mem_used_kb(b"MemTotal:\n"), None);
    assert_eq!(read_mem_used_kb(b"MemTotal: 100 kB\nBuffers: x\n"), None);
    assert_eq!(read_mem_total_mb(b""), 0);
    assert_eq!(read_mem_total_mb(b"MemTotal: 1023 kB\n"), 0);
    assert_eq!(read_mem_total_mb(b"MemTotal: 2048 kB\n"), 2);
}

#[test]
fn second_word_as_number() {
    assert_eq!(read_second_number(b"Label:   42 kB"), Some(42));
    assert_eq!(read_second_number(b"Label:"), None);
    assert_eq!(read_second_number(b"Label: kB"), None);
}

#[test]
fn frequency_is_the_mean_of_what_could_be_read() {
    let files = vec![b"1200000\n".to_vec(), b"garbage".to_vec(), b" 1800000 ".to_vec()];
    assert_eq!(read_cpu_freq_khz(&files), Some(1500000));
    assert_eq!(read_cpu_freq_khz(&vec![b"3".to_vec(), b"4".to_vec()]), Some(3));
    assert_eq!(read_cpu_freq_khz(&vec![]), None);
    assert_eq!(read_cpu_freq_khz(&vec![b"".to_vec()]), None);
    let big = vec![b"18446744073709551615".to_vec(), b"18446744073709551615".to_vec()];
    assert_eq!(read_cpu_freq_khz(&big), Some(u64::MAX));
}

#[test]
fn temperature_is_the_highest_reading() {
    let files = vec![b"45000\n".to_vec(), b"52000\n".to_vec(), b"x".to_vec()];
    assert_eq!(read_temp_c(&files), Some(52000));
    assert_eq!(read_temp_c(&vec![b"-5000".to_vec()]), Some(0));
    assert_eq!(read_temp_c(&vec![b"n/a".to_vec()]), None);
    assert_eq!(read_temp_c(&vec![]), None);
}

#[test]
fn load_averages() {
    assert_eq!(read_loadavg(b"0.52 0.58 0.59 1/467 12345\n"), Some((520, 580, 590)));
    assert_eq!(read_loadavg(b"12.00 3.5 0\n"), Some((12000, 3500, 0)));
    assert_eq!(read_loadavg(b"0.5 0.6"), None);
    assert_eq!(read_loadavg(b"0.5 x 0.6"), None);
    assert_eq!(read_loadavg(b""), None);
}

#[test]
fn gpu_status_line() {
    let want = GpuStatus {
        util: 45000,
        mem_util: 12000,
        temp: 60000,
        sm_clock: 1500000,
        mem_clock: 5001000,
    };
    assert_eq!(read_gpu_status(b" 45, 12, 60, 1500, 5001 \n"), Some(want));
    assert_eq!(read_gpu_status(b"45,12,60,1500,5001"), Some(want));
    assert_eq!(read_gpu_status(b"45,12,60,1500,5001,extra\nsecond line"), Some(want));
    assert_eq!(
        read_gpu_status(b"99.5,0.25,-1,0,0"),
        Some(GpuStatus { util: 99500, mem_util: 250, temp: -1000, sm_clock: 0, mem_clock: 0 })
    );
}

#[test]
fn gpu_status_that_cannot_be_read() {
    assert_eq!(read_gpu_status(b""), None);
    assert_eq!(read_gpu_status(b"\n45,12,60,1500,5001"), None);
    assert_eq!(read_gpu_status(b"   \n"), None);
    assert_eq!(read_gpu_status(b"45,12,60,1500"), None);
    assert_eq!(read_gpu_status(b"45 %,12,60,1500,5001"), None);
    assert_eq!(read_gpu_status(b"45,,60,1500,5001"), None);
    assert_eq!(read_gpu_status(b"[N/A],12,60,1500,5001"), None);
}

#[test]
fn directory_names() {
    assert!(cpu_dir_name(b"cpu0"));
    assert!(cpu_dir_name(b"cpu12"));
    assert!(cpu_dir_name(b"cpu"));
    assert!(!cpu_dir_name(b"cpufreq"));
    assert!(!cpu_dir_name(b"cp"));
    assert!(!cpu_dir_name(b"xcpu1"));
    assert!(thermal_zone_name(b"thermal_zone3"));
    assert!(thermal_zone_name(b"thermal_zone"));
    assert!(!thermal_zone_name(b"cooling_device0"));
}

#[test]
fn byte_strings_compare() {
    assert!(bytes_eq(b"abc", b"abc"));
    assert!(bytes_eq(b"", b""));
    assert!(!bytes_eq(b"abc", b"abd"));
    assert!(!bytes_eq(b"abc", b"ab"));
}
