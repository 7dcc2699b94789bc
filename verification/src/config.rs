//! The configuration surface: what the values given on the command line
//! mean, and the limits that they are held to.

use vstd::prelude::*;
use vstd::slice::slice_subrange;
use vstd::string::StringSliceAdditionalSpecFns;
use crate::text::{parse_u64, parse_u64_spec};

verus! {

/// Shortest sampling interval, in milliseconds.
pub const SAMPLE_MS_MIN: u64 = 200;

/// Sampling interval that is used when none is given, in milliseconds.
pub const SAMPLE_MS_DEFAULT: u64 = 1000;

/// Least memory target, in megabytes.
pub const MEM_MB_MIN: u64 = 256;

/// Greatest memory target, in megabytes.
pub const MEM_MB_MAX: u64 = 16384;

/// Memory target when the size of the memory is not known, in megabytes.
pub const MEM_MB_FALLBACK: u64 = 512;

/// Least chart height, in rows.
pub const HEIGHT_MIN: usize = 4;

/// Greatest chart height, in rows.
pub const HEIGHT_MAX: usize = 12;

/// Chart height that is used when none is given.
pub const HEIGHT_DEFAULT: usize = 8;

/// Least chart width, in columns.
pub const WIDTH_MIN: usize = 20;

/// Greatest chart width that is derived from the terminal.
pub const WIDTH_MAX: usize = 120;

/// Columns of the terminal that the chart leaves to its labels.
pub const WIDTH_MARGIN: usize = 25;

/// Width of the terminal when it is not known.
pub const COLUMNS_DEFAULT: usize = 80;

/// Bytes per gigabyte.
pub const GIB: u64 = 1_073_741_824;

/// Disk size that is used when none, or none above zero, is given, in
/// thousandths of a gigabyte.
pub const DISK_GB_DEFAULT: i64 = 1000;

/// A duration in seconds: a number, or a number followed by `s`, or a
/// number of minutes followed by `m`. `None` if the number is malformed or
/// the seconds do not fit in 64 bits.
pub open spec fn duration_spec(b: Seq<u8>) -> Option<u64> {
    if b.len() > 0 && b.last() == 109 {
        match parse_u64_spec(b.drop_last()) {
            Some(v) => if v * 60 <= u64::MAX {
                Some((v * 60) as u64)
            } else {
                None
            },
            None => None,
        }
    } else if b.len() > 0 && b.last() == 115 {
        parse_u64_spec(b.drop_last())
    } else {
        parse_u64_spec(b)
    }
}

/// `v` held to the range from `lo` to `hi`.
pub open spec fn clamped(v: int, lo: int, hi: int) -> int {
    if v < lo {
        lo
    } else if v > hi {
        hi
    } else {
        v
    }
}

/// Number of CPU workers: as requested, or, for a request of zero, one per
/// processor, or one if their number is not known.
pub open spec fn cpu_workers_spec(requested: usize, available: Option<usize>) -> usize {
    if requested != 0 {
        requested
    } else {
        match available {
            Some(n) => if n == 0 {
                1
            } else {
                n
            },
            None => 1,
        }
    }
}

/// Memory target in megabytes before it is held to its limits: as
/// requested, or, for a request of zero, three fifths of the memory, or the
/// fallback if the size of the memory is not known.
pub open spec fn mem_target_wanted(requested_mb: u64, total_mb: u64) -> int {
    if requested_mb > 0 {
        requested_mb as int
    } else if total_mb > 0 {
        (total_mb * 3) / 5
    } else {
        MEM_MB_FALLBACK as int
    }
}

/// Memory target in megabytes.
pub open spec fn mem_target_spec(requested_mb: u64, total_mb: u64) -> u64 {
    clamped(mem_target_wanted(requested_mb, total_mb), MEM_MB_MIN as int, MEM_MB_MAX as int) as u64
}

/// Size of the backing file in bytes for a size in thousandths of a
/// gigabyte: zero with the disk role off; the default for a size that is
/// not above zero; cut off at what 64 bits can count.
pub open spec fn disk_bytes_spec(enabled: bool, gb_milli: i64) -> u64 {
    if !enabled {
        0
    } else {
        let milli = if gb_milli <= 0 {
            DISK_GB_DEFAULT as int
        } else {
            gb_milli as int
        };
        let bytes = (milli * GIB) / 1000;
        if bytes > u64::MAX {
            u64::MAX
        } else {
            bytes as u64
        }
    }
}

/// Chart width: as requested, or, for a request of zero, the terminal's
/// columns less the margin, held to the limits. A terminal of unknown width
/// counts as one of `COLUMNS_DEFAULT` columns.
pub open spec fn graph_width_spec(requested: usize, columns: Option<usize>) -> usize {
    if requested > 0 {
        requested
    } else {
        let cols = match columns {
            Some(c) => c,
            None => COLUMNS_DEFAULT,
        };
        let w = if cols > WIDTH_MARGIN {
            cols - WIDTH_MARGIN
        } else {
            WIDTH_MIN as int
        };
        clamped(w, WIDTH_MIN as int, WIDTH_MAX as int) as usize
    }
}

/// Reads a duration: seconds, optionally marked `s`, or minutes marked `m`.
pub fn parse_duration(s: &str) -> (r: Option<u64>)
    ensures
        r == duration_spec(s.spec_bytes()),
{
    let b: &[u8] = s.as_bytes();
    let n: usize = b.len();
    if n > 0 && b[n - 1] == 109 {
        assert(b@.subrange(0, n - 1) =~= b@.drop_last());
        match parse_u64(slice_subrange(b, 0, n - 1)) {
            Some(v) => v.checked_mul(60),
            None => None,
        }
    } else if n > 0 && b[n - 1] == 115 {
        assert(b@.subrange(0, n - 1) =~= b@.drop_last());
        parse_u64(slice_subrange(b, 0, n - 1))
    } else {
        parse_u64(b)
    }
}

/// Number of CPU workers to start.
pub fn resolve_cpu_workers(requested: usize, available: Option<usize>) -> (r: usize)
    ensures
        r == cpu_workers_spec(requested, available),
        r >= 1,
{
    if requested != 0 {
        requested
    } else {
        match available {
            Some(n) => if n == 0 {
                1
            } else {
                n
            },
            None => 1,
        }
    }
}

/// Memory target in megabytes, between `MEM_MB_MIN` and `MEM_MB_MAX`.
pub fn resolve_mem_target(requested_mb: u64, total_mb: u64) -> (r: u64)
    ensures
        r == mem_target_spec(requested_mb, total_mb),
        MEM_MB_MIN <= r <= MEM_MB_MAX,
{
    let wanted: u128 = if requested_mb > 0 {
        requested_mb as u128
    } else if total_mb > 0 {
        (total_mb as u128 * 3) / 5
    } else {
        MEM_MB_FALLBACK as u128
    };
    if wanted < MEM_MB_MIN as u128 {
        MEM_MB_MIN
    } else if wanted > MEM_MB_MAX as u128 {
        MEM_MB_MAX
    } else {
        wanted as u64
    }
}

/// Size of the backing file in bytes.
pub fn resolve_disk_bytes(enabled: bool, gb_milli: i64) -> (r: u64)
    ensures
        r == disk_bytes_spec(enabled, gb_milli),
{
    if !enabled {
        return 0;
    }
    let milli: u128 = if gb_milli <= 0 {
        DISK_GB_DEFAULT as u128
    } else {
        gb_milli as u128
    };
    let bytes: u128 = (milli * GIB as u128) / 1000;
    if bytes > u64::MAX as u128 {
        u64::MAX
    } else {
        bytes as u64
    }
}

/// Sampling interval in milliseconds, never below `SAMPLE_MS_MIN`.
pub fn resolve_sample_ms(requested: u64) -> (r: u64)
    ensures
        r == clamped(requested as int, SAMPLE_MS_MIN as int, u64::MAX as int),
        r >= SAMPLE_MS_MIN,
{
    if requested < SAMPLE_MS_MIN {
        SAMPLE_MS_MIN
    } else {
        requested
    }
}

/// Chart width in columns.
pub fn resolve_graph_width(requested: usize, columns: Option<usize>) -> (r: usize)
    ensures
        r == graph_width_spec(requested, columns),
        r >= 1,
{
    if requested > 0 {
        return requested;
    }
    let cols: usize = match columns {
        Some(c) => c,
        None => COLUMNS_DEFAULT,
    };
    let w: usize = if cols > WIDTH_MARGIN {
        cols - WIDTH_MARGIN
    } else {
        WIDTH_MIN
    };
    if w < WIDTH_MIN {
        WIDTH_MIN
    } else if w > WIDTH_MAX {
        WIDTH_MAX
    } else {
        w
    }
}

/// Chart height in rows, between `HEIGHT_MIN` and `HEIGHT_MAX`.
pub fn resolve_graph_height(requested: usize) -> (r: usize)
    ensures
        r == clamped(requested as int, HEIGHT_MIN as int, HEIGHT_MAX as int),
        HEIGHT_MIN <= r <= HEIGHT_MAX,
{
    if requested < HEIGHT_MIN {
        HEIGHT_MIN
    } else if requested > HEIGHT_MAX {
        HEIGHT_MAX
    } else {
        requested
    }
}

} // verus!
