//! The command line: which options there are, what their values mean, and
//! what is wrong with a command line that cannot be read.

use vstd::prelude::*;
use vstd::string::StringSliceAdditionalSpecFns;
use vstd::utf8::encode_utf8;
use crate::config::{
    clamped, cpu_workers_spec, disk_bytes_spec, duration_spec, graph_width_spec, mem_target_spec,
    parse_duration, resolve_cpu_workers, resolve_disk_bytes, resolve_graph_height,
    resolve_graph_width, resolve_mem_target, resolve_sample_ms, DISK_GB_DEFAULT, HEIGHT_DEFAULT,
    HEIGHT_MAX, HEIGHT_MIN, MEM_MB_MAX, MEM_MB_MIN, SAMPLE_MS_DEFAULT, SAMPLE_MS_MIN, WIDTH_MIN,
};
use crate::sources::bytes_eq;
use crate::text::{parse_milli, parse_milli_spec, parse_u64, parse_u64_spec};

verus! {

/// An option that takes a value.
#[derive(Clone, Copy, Debug, PartialEq, Eq, Structural)]
pub enum Opt {
    /// `--duration`: seconds, or minutes marked `m`.
    Duration,
    /// `--cpu-workers`: a count.
    CpuWorkers,
    /// `--mem-mb`: megabytes.
    MemMb,
    /// `--disk-gb`: gigabytes, with up to three decimals.
    DiskGb,
    /// `--temp-dir`: a path.
    TempDir,
    /// `--sample-ms`: milliseconds.
    SampleMs,
    /// `--csv`: a path.
    Csv,
    /// `--graph-width`: columns.
    GraphWidth,
    /// `--graph-height`: rows.
    GraphHeight,
    /// `--gpu-status`: a path.
    GpuStatus,
}

/// Why a command line could not be read. `at` is the position of the
/// offending argument.
#[derive(Clone, Copy, Debug, PartialEq, Eq, Structural)]
pub enum ArgError {
    /// Help was asked for.
    Help,
    /// The argument at `at` is no option.
    Unknown { at: usize },
    /// The option is the last argument and has no value.
    MissingValue { opt: Opt },
    /// The value at `at` is not what the option takes.
    Invalid { opt: Opt, at: usize },
}

/// What the command line asks for.
#[derive(Clone, Debug, PartialEq, Eq)]
pub struct Args {
    /// Seconds to run; zero: until stopped.
    pub duration_s: u64,
    /// CPU workers; zero: one per processor.
    pub cpu_workers: usize,
    /// Memory target in megabytes; zero: derived from the memory's size.
    pub mem_mb: u64,
    /// Size of the backing file in thousandths of a gigabyte.
    pub disk_gb: i64,
    /// Directory of the backing file.
    pub temp_dir: Option<String>,
    /// Whether the disk role runs.
    pub enable_disk: bool,
    /// Whether the memory role runs.
    pub enable_mem: bool,
    /// Milliseconds between two samples.
    pub sample_ms: u64,
    /// File that every sample is appended to.
    pub csv_path: Option<String>,
    /// Chart width in columns.
    pub graph_width: usize,
    /// Chart height in rows.
    pub graph_height: usize,
    /// File that holds the status of the graphics processor.
    pub gpu_status_path: Option<String>,
}

/// The bytes of an argument.
pub open spec fn arg_bytes(s: String) -> Seq<u8> {
    encode_utf8(s@)
}

/// The option that `name` names, if it names one that takes a value.
pub open spec fn opt_of(name: Seq<u8>) -> Option<Opt> {
    if name == "--duration".spec_bytes() {
        Some(Opt::Duration)
    } else if name == "--cpu-workers".spec_bytes() {
        Some(Opt::CpuWorkers)
    } else if name == "--mem-mb".spec_bytes() {
        Some(Opt::MemMb)
    } else if name == "--disk-gb".spec_bytes() {
        Some(Opt::DiskGb)
    } else if name == "--temp-dir".spec_bytes() {
        Some(Opt::TempDir)
    } else if name == "--sample-ms".spec_bytes() {
        Some(Opt::SampleMs)
    } else if name == "--csv".spec_bytes() {
        Some(Opt::Csv)
    } else if name == "--graph-width".spec_bytes() {
        Some(Opt::GraphWidth)
    } else if name == "--graph-height".spec_bytes() {
        Some(Opt::GraphHeight)
    } else if name == "--gpu-status".spec_bytes() {
        Some(Opt::GpuStatus)
    } else {
        None
    }
}

/// A count that fits the machine's word.
pub open spec fn parse_usize_spec(s: Seq<u8>) -> Option<usize> {
    match parse_u64_spec(s) {
        Some(v) => if v <= usize::MAX {
            Some(v as usize)
        } else {
            None
        },
        None => None,
    }
}

/// What is asked for when the command line is empty.
pub open spec fn defaults() -> Args {
    Args {
        duration_s: 0,
        cpu_workers: 0,
        mem_mb: 0,
        disk_gb: DISK_GB_DEFAULT,
        temp_dir: None,
        enable_disk: true,
        enable_mem: true,
        sample_ms: SAMPLE_MS_DEFAULT,
        csv_path: None,
        graph_width: 0,
        graph_height: HEIGHT_DEFAULT,
        gpu_status_path: None,
    }
}

/// `a` with the option `opt` set to `value`; `None` if the value is not
/// what the option takes.
pub open spec fn with_value(a: Args, opt: Opt, value: String) -> Option<Args> {
    let b = arg_bytes(value);
    match opt {
        Opt::Duration => match duration_spec(b) {
            Some(v) => Some(Args { duration_s: v, ..a }),
            None => None,
        },
        Opt::CpuWorkers => match parse_usize_spec(b) {
            Some(v) => Some(Args { cpu_workers: v, ..a }),
            None => None,
        },
        Opt::MemMb => match parse_u64_spec(b) {
            Some(v) => Some(Args { mem_mb: v, ..a }),
            None => None,
        },
        Opt::DiskGb => match parse_milli_spec(b) {
            Some(v) => Some(Args { disk_gb: v, ..a }),
            None => None,
        },
        Opt::TempDir => Some(Args { temp_dir: Some(value), ..a }),
        Opt::SampleMs => match parse_u64_spec(b) {
            Some(v) => Some(Args { sample_ms: v, ..a }),
            None => None,
        },
        Opt::Csv => Some(Args { csv_path: Some(value), ..a }),
        Opt::GraphWidth => match parse_usize_spec(b) {
            Some(v) => Some(Args { graph_width: v, ..a }),
            None => None,
        },
        Opt::GraphHeight => match parse_usize_spec(b) {
            Some(v) => Some(Args { graph_height: v, ..a }),
            None => None,
        },
        Opt::GpuStatus => Some(Args { gpu_status_path: Some(value), ..a }),
    }
}

/// What the arguments from position `i` on make of `a`: they are read left
/// to right, a later option overrides an earlier one, and the first
/// argument that cannot be read ends the reading.
pub open spec fn scan(args: Seq<String>, i: int, a: Args) -> Result<Args, ArgError>
    decreases args.len() - i,
{
    if i < 0 || i >= args.len() {
        Ok(a)
    } else {
        let name = arg_bytes(args[i]);
        match opt_of(name) {
            Some(opt) => if i + 1 >= args.len() {
                Err(ArgError::MissingValue { opt })
            } else {
                match with_value(a, opt, args[i + 1]) {
                    Some(next) => scan(args, i + 2, next),
                    None => Err(ArgError::Invalid { opt, at: (i + 1) as usize }),
                }
            },
            None => if name == "--no-disk".spec_bytes() {
                scan(args, i + 1, Args { enable_disk: false, ..a })
            } else if name == "--no-mem".spec_bytes() {
                scan(args, i + 1, Args { enable_mem: false, ..a })
            } else if name == "-h".spec_bytes() || name == "--help".spec_bytes() {
                Err(ArgError::Help)
            } else {
                Err(ArgError::Unknown { at: i as usize })
            },
        }
    }
}

/// `a` with the chart's size settled: the width derived from the terminal
/// where none was asked for, the height held to its limits.
pub open spec fn settled(a: Args, columns: Option<usize>) -> Args {
    Args {
        graph_width: graph_width_spec(a.graph_width, columns),
        graph_height: clamped(a.graph_height as int, HEIGHT_MIN as int, HEIGHT_MAX as int) as usize,
        ..a
    }
}

/// What the command line `args` asks for on a terminal of `columns`
/// columns.
pub open spec fn parse_args_spec(args: Seq<String>, columns: Option<usize>) -> Result<
    Args,
    ArgError,
> {
    match scan(args, 0, defaults()) {
        Ok(a) => Ok(settled(a, columns)),
        Err(e) => Err(e),
    }
}

/// Reads a count that fits the machine's word.
pub fn parse_usize(s: &[u8]) -> (r: Option<usize>)
    ensures
        r == parse_usize_spec(s@),
{
    match parse_u64(s) {
        Some(v) => if v <= usize::MAX as u64 {
            Some(v as usize)
        } else {
            None
        },
        None => None,
    }
}

/// The option that `name` names, if it names one that takes a value.
pub fn option_named(name: &[u8]) -> (r: Option<Opt>)
    ensures
        r == opt_of(name@),
{
    if bytes_eq(name, "--duration".as_bytes()) {
        Some(Opt::Duration)
    } else if bytes_eq(name, "--cpu-workers".as_bytes()) {
        Some(Opt::CpuWorkers)
    } else if bytes_eq(name, "--mem-mb".as_bytes()) {
        Some(Opt::MemMb)
    } else if bytes_eq(name, "--disk-gb".as_bytes()) {
        Some(Opt::DiskGb)
    } else if bytes_eq(name, "--temp-dir".as_bytes()) {
        Some(Opt::TempDir)
    } else if bytes_eq(name, "--sample-ms".as_bytes()) {
        Some(Opt::SampleMs)
    } else if bytes_eq(name, "--csv".as_bytes()) {
        Some(Opt::Csv)
    } else if bytes_eq(name, "--graph-width".as_bytes()) {
        Some(Opt::GraphWidth)
    } else if bytes_eq(name, "--graph-height".as_bytes()) {
        Some(Opt::GraphHeight)
    } else if bytes_eq(name, "--gpu-status".as_bytes()) {
        Some(Opt::GpuStatus)
    } else {
        None
    }
}

/// Sets the option `opt` of `a` to `value`; `false`, and `a` unchanged, if
/// the value is not what the option takes.
pub fn set_value(a: &mut Args, opt: Opt, value: &String) -> (ok: bool)
    ensures
        ok == with_value(*old(a), opt, *value).is_some(),
        ok ==> *final(a) == with_value(*old(a), opt, *value).unwrap(),
        !ok ==> *final(a) == *old(a),
{
    let text: &str = value.as_str();
    let b: &[u8] = text.as_bytes();
    match opt {
        Opt::Duration => match parse_duration(text) {
            Some(v) => {
                a.duration_s = v;
                true
            },
            None => false,
        },
        Opt::CpuWorkers => match parse_usize(b) {
            Some(v) => {
                a.cpu_workers = v;
                true
            },
            None => false,
        },
        Opt::MemMb => match parse_u64(b) {
            Some(v) => {
                a.mem_mb = v;
                true
            },
            None => false,
        },
        Opt::DiskGb => match parse_milli(b) {
            Some(v) => {
                a.disk_gb = v;
                true
            },
            None => false,
        },
        Opt::TempDir => {
            a.temp_dir = Some(value.clone());
            true
        },
        Opt::SampleMs => match parse_u64(b) {
            Some(v) => {
                a.sample_ms = v;
                true
            },
            None => false,
        },
        Opt::Csv => {
            a.csv_path = Some(value.clone());
            true
        },
        Opt::GraphWidth => match parse_usize(b) {
            Some(v) => {
                a.graph_width = v;
                true
            },
            None => false,
        },
        Opt::GraphHeight => match parse_usize(b) {
            Some(v) => {
                a.graph_height = v;
                true
            },
            None => false,
        },
        Opt::GpuStatus => {
            a.gpu_status_path = Some(value.clone());
            true
        },
    }
}

/// Reads the command line, without the program's name, for a terminal of
/// `columns` columns (`None`: not known).
pub fn parse_args(args: &Vec<String>, columns: Option<usize>) -> (r: Result<Args, ArgError>)
    ensures
        r == parse_args_spec(args@, columns),
{
    let mut a = Args {
        duration_s: 0,
        cpu_workers: 0,
        mem_mb: 0,
        disk_gb: DISK_GB_DEFAULT,
        temp_dir: None,
        enable_disk: true,
        enable_mem: true,
        sample_ms: SAMPLE_MS_DEFAULT,
        csv_path: None,
        graph_width: 0,
        graph_height: HEIGHT_DEFAULT,
        gpu_status_path: None,
    };
    let n: usize = args.len();
    let mut i: usize = 0;
    while i < n
        invariant
            i <= n,
            n == args@.len(),
            scan(args@, 0, defaults()) == scan(args@, i as int, a),
        decreases n - i,
    {
        let name: &[u8] = args[i].as_str().as_bytes();
        assert(name@ == arg_bytes(args@[i as int]));
        match option_named(name) {
            Some(opt) => {
                if i + 1 >= n {
                    return Err(ArgError::MissingValue { opt });
                }
                if !set_value(&mut a, opt, &args[i + 1]) {
                    return Err(ArgError::Invalid { opt, at: i + 1 });
                }
                i = i + 2;
            },
            None => {
                if bytes_eq(name, "--no-disk".as_bytes()) {
                    a.enable_disk = false;
                } else if bytes_eq(name, "--no-mem".as_bytes()) {
                    a.enable_mem = false;
                } else if bytes_eq(name, "-h".as_bytes()) || bytes_eq(name, "--help".as_bytes()) {
                    return Err(ArgError::Help);
                } else {
                    return Err(ArgError::Unknown { at: i });
                }
                i = i + 1;
            },
        }
    }
    a.graph_width = resolve_graph_width(a.graph_width, columns);
    a.graph_height = resolve_graph_height(a.graph_height);
    Ok(a)
}

/// What a run is started with, once the command line has been weighed
/// against the machine.
#[derive(Clone, Copy, Debug, PartialEq, Eq)]
pub struct Settings {
    /// Seconds to run; zero: until stopped.
    pub duration_s: u64,
    /// Number of CPU workers, at least one.
    pub cpu_workers: usize,
    /// Whether the memory role runs.
    pub enable_mem: bool,
    /// Memory target in megabytes.
    pub mem_target_mb: u64,
    /// Whether the disk role runs.
    pub enable_disk: bool,
    /// Size asked for the backing file, in bytes; zero with the disk role
    /// off.
    pub disk_bytes: u64,
    /// Milliseconds between two samples.
    pub sample_ms: u64,
    /// Chart width in columns.
    pub width: usize,
    /// Chart height in rows.
    pub height: usize,
    /// Whether a source for the graphics processor's status was named.
    pub show_gpu: bool,
    /// Whether samples are to be appended to a log.
    pub log: bool,
}

/// The settings that `a` gives on a machine with `mem_total_mb` megabytes
/// of memory (zero: not known) and `available` processors (`None`: not
/// known).
pub open spec fn settings_spec(a: Args, mem_total_mb: u64, available: Option<usize>) -> Settings {
    Settings {
        duration_s: a.duration_s,
        cpu_workers: cpu_workers_spec(a.cpu_workers, available),
        enable_mem: a.enable_mem,
        mem_target_mb: mem_target_spec(a.mem_mb, mem_total_mb),
        enable_disk: a.enable_disk,
        disk_bytes: disk_bytes_spec(a.enable_disk, a.disk_gb),
        sample_ms: clamped(a.sample_ms as int, SAMPLE_MS_MIN as int, u64::MAX as int) as u64,
        width: clamped(a.graph_width as int, WIDTH_MIN as int, usize::MAX as int) as usize,
        height: clamped(a.graph_height as int, HEIGHT_MIN as int, HEIGHT_MAX as int) as usize,
        show_gpu: a.gpu_status_path is Some,
        log: a.csv_path is Some,
    }
}

/// Weighs the command line against the machine.
pub fn resolve(a: &Args, mem_total_mb: u64, available: Option<usize>) -> (s: Settings)
    ensures
        s == settings_spec(*a, mem_total_mb, available),
        s.cpu_workers >= 1,
        MEM_MB_MIN <= s.mem_target_mb <= MEM_MB_MAX,
        s.sample_ms >= SAMPLE_MS_MIN,
        s.width >= WIDTH_MIN,
        HEIGHT_MIN <= s.height <= HEIGHT_MAX,
{
    Settings {
        duration_s: a.duration_s,
        cpu_workers: resolve_cpu_workers(a.cpu_workers, available),
        enable_mem: a.enable_mem,
        mem_target_mb: resolve_mem_target(a.mem_mb, mem_total_mb),
        enable_disk: a.enable_disk,
        disk_bytes: resolve_disk_bytes(a.enable_disk, a.disk_gb),
        sample_ms: resolve_sample_ms(a.sample_ms),
        width: if a.graph_width < WIDTH_MIN {
            WIDTH_MIN
        } else {
            a.graph_width
        },
        height: resolve_graph_height(a.graph_height),
        show_gpu: a.gpu_status_path.is_some(),
        log: a.csv_path.is_some(),
    }
}

} // verus!
