//! Readings from the text that the system offers about itself. Each reader
//! takes the text, already read, and returns the reading, or `None` where
//! the text does not hold one.

use vstd::prelude::*;
use vstd::string::StringSliceAdditionalSpecFns;
use crate::stats::window_sum;
use crate::text::{
    all_digits, byte_is_digit, is_digit, parse_i64, parse_i64_spec, parse_milli, parse_milli_spec,
    parse_u64, parse_u64_spec,
};
use crate::tokens::{
    fields, has_prefix, lines, pieces_view, split_fields, split_lines, split_words, starts_with,
    trim, trimmed, words, COMMA,
};

verus! {

/// Number of counters after the label that are read from the processor
/// line.
pub const CPU_FIELDS: usize = 7;

/// The numbers among the words `w[1..n]`, in order; a word that is no
/// number is passed over.
pub open spec fn number_words(w: Seq<Seq<u8>>, n: int) -> Seq<u64>
    decreases n,
{
    if n <= 1 {
        Seq::empty()
    } else {
        let rest = number_words(w, n - 1);
        match parse_u64_spec(w[n - 1]) {
            Some(v) => rest.push(v),
            None => rest,
        }
    }
}

/// How many words of a processor line are looked at: the label and up to
/// `CPU_FIELDS` more.
pub open spec fn cpu_words_used(w: Seq<Seq<u8>>) -> int {
    if w.len() > CPU_FIELDS + 1 {
        CPU_FIELDS as int + 1
    } else {
        w.len() as int
    }
}

/// (total, idle) ticks from the words of the processor line: the line must
/// start with the label `cpu` and hold at least four numbers; the total is
/// the sum of all, idle the sum of the fourth and, if there is one, the
/// fifth.
pub open spec fn cpu_times_of_words(w: Seq<Seq<u8>>) -> Option<(u64, u64)> {
    if w.len() == 0 || w[0] != "cpu".spec_bytes() {
        None
    } else {
        let nums = number_words(w, cpu_words_used(w));
        if nums.len() < 4 || window_sum(nums) > u64::MAX {
            None
        } else {
            Some(
                (
                    window_sum(nums) as u64,
                    (nums[3] + if nums.len() > 4 {
                        nums[4] as int
                    } else {
                        0
                    }) as u64,
                ),
            )
        }
    }
}

/// (total, idle) ticks that the first line of `text` reports.
pub open spec fn cpu_times_spec(text: Seq<u8>) -> Option<(u64, u64)> {
    let ls = lines(text);
    if ls.len() == 0 {
        None
    } else {
        cpu_times_of_words(words(ls[0]))
    }
}

/// The number that is the second word of `line`.
pub open spec fn second_number(line: Seq<u8>) -> Option<u64> {
    let w = words(line);
    if w.len() < 2 {
        None
    } else {
        parse_u64_spec(w[1])
    }
}

/// (total, free, buffers, cached) kilobytes after the first `n` lines: each
/// labelled line sets its count, the last one of a kind wins, counts never
/// set are zero. `None` once a labelled line holds no number.
pub open spec fn mem_scan(ls: Seq<Seq<u8>>, n: int) -> Option<(u64, u64, u64, u64)>
    decreases n,
{
    if n <= 0 {
        Some((0u64, 0u64, 0u64, 0u64))
    } else {
        match mem_scan(ls, n - 1) {
            None => None,
            Some(c) => {
                let line = ls[n - 1];
                if starts_with(line, "MemTotal:".spec_bytes()) {
                    match second_number(line) {
                        Some(v) => Some((v, c.1, c.2, c.3)),
                        None => None,
                    }
                } else if starts_with(line, "MemFree:".spec_bytes()) {
                    match second_number(line) {
                        Some(v) => Some((c.0, v, c.2, c.3)),
                        None => None,
                    }
                } else if starts_with(line, "Buffers:".spec_bytes()) {
                    match second_number(line) {
                        Some(v) => Some((c.0, c.1, v, c.3)),
                        None => None,
                    }
                } else if starts_with(line, "Cached:".spec_bytes()) {
                    match second_number(line) {
                        Some(v) => Some((c.0, c.1, c.2, v)),
                        None => None,
                    }
                } else {
                    Some(c)
                }
            },
        }
    }
}

/// Memory in use: the total less what is free or can be reclaimed, zero if
/// that is more than the total.
pub open spec fn mem_used_of(c: (u64, u64, u64, u64)) -> u64 {
    if c.1 + c.2 + c.3 >= c.0 {
        0
    } else {
        (c.0 - (c.1 + c.2 + c.3)) as u64
    }
}

/// (total, used) kilobytes that the memory report `text` gives; `None` if a
/// labelled line is malformed or the total is missing or zero.
pub open spec fn mem_used_spec(text: Seq<u8>) -> Option<(u64, u64)> {
    let ls = lines(text);
    match mem_scan(ls, ls.len() as int) {
        None => None,
        Some(c) => if c.0 == 0 {
            None
        } else {
            Some((c.0, mem_used_of(c)))
        },
    }
}

/// Total memory in megabytes that `text` reports, zero if it reports none.
pub open spec fn mem_total_mb_spec(text: Seq<u8>) -> u64 {
    match mem_used_spec(text) {
        Some(r) => r.0 / 1024,
        None => 0,
    }
}

/// Every entry of a window is at most its sum.
pub proof fn lemma_entry_le_sum(w: Seq<u64>, i: int)
    requires
        0 <= i < w.len(),
    ensures
        w[i] <= window_sum(w),
    decreases w.len(),
{
    if i < w.len() - 1 {
        lemma_entry_le_sum(w.drop_last(), i);
    }
}

/// Two different entries of a window together are at most its sum.
pub proof fn lemma_two_entries_le_sum(w: Seq<u64>, i: int, j: int)
    requires
        0 <= i < j < w.len(),
    ensures
        w[i] + w[j] <= window_sum(w),
    decreases w.len(),
{
    if j < w.len() - 1 {
        lemma_two_entries_le_sum(w.drop_last(), i, j);
    } else {
        lemma_entry_le_sum(w.drop_last(), i);
    }
}

/// Whether two byte strings are equal.
pub fn bytes_eq(a: &[u8], b: &[u8]) -> (r: bool)
    ensures
        r == (a@ == b@),
{
    if a.len() != b.len() {
        return false;
    }
    let mut i: usize = 0;
    while i < a.len()
        invariant
            i <= a@.len(),
            a@.len() == b@.len(),
            forall|k: int| 0 <= k < i ==> a@[k] == b@[k],
        decreases a@.len() - i,
    {
        if a[i] != b[i] {
            return false;
        }
        i = i + 1;
    }
    assert(a@ =~= b@);
    true
}

/// Cumulative (total, idle) processor ticks from the text of the system's
/// processor statistics.
pub fn read_cpu_times(stat: &[u8]) -> (r: Option<(u64, u64)>)
    ensures
        r == cpu_times_spec(stat@),
{
    let ls: Vec<Vec<u8>> = split_lines(stat);
    if ls.len() == 0 {
        return None;
    }
    assert(pieces_view(ls@)[0] == ls@[0]@);
    let w: Vec<Vec<u8>> = split_words(ls[0].as_slice());
    let ghost wv = pieces_view(w@);
    if w.len() == 0 {
        return None;
    }
    assert(wv[0] == w@[0]@);
    if !bytes_eq(w[0].as_slice(), "cpu".as_bytes()) {
        return None;
    }
    let n: usize = if w.len() > CPU_FIELDS + 1 {
        CPU_FIELDS + 1
    } else {
        w.len()
    };
    let mut nums: Vec<u64> = Vec::new();
    let mut i: usize = 1;
    while i < n
        invariant
            1 <= i <= n <= w@.len(),
            wv == pieces_view(w@),
            nums@ == number_words(wv, i as int),
            nums@.len() <= i - 1,
        decreases n - i,
    {
        assert(wv[i as int] == w@[i as int]@);
        match parse_u64(w[i].as_slice()) {
            Some(v) => {
                nums.push(v);
            },
            None => {},
        }
        i = i + 1;
    }
    if nums.len() < 4 {
        return None;
    }
    let mut total: u128 = 0;
    let mut k: usize = 0;
    while k < nums.len()
        invariant
            k <= nums@.len() <= CPU_FIELDS,
            total as nat == window_sum(nums@.take(k as int)),
            total <= k * u64::MAX,
        decreases nums@.len() - k,
    {
        assert(nums@.take(k + 1).drop_last() =~= nums@.take(k as int));
        total = total + nums[k] as u128;
        k = k + 1;
    }
    assert(nums@.take(nums@.len() as int) =~= nums@);
    if total > u64::MAX as u128 {
        return None;
    }
    proof {
        lemma_entry_le_sum(nums@, 3);
        if nums@.len() > 4 {
            lemma_two_entries_le_sum(nums@, 3, 4);
        }
    }
    let idle: u64 = if nums.len() > 4 {
        nums[3] + nums[4]
    } else {
        nums[3]
    };
    Some((total as u64, idle))
}

/// The number that is the second word of `line`.
pub fn read_second_number(line: &[u8]) -> (r: Option<u64>)
    ensures
        r == second_number(line@),
{
    let w: Vec<Vec<u8>> = split_words(line);
    if w.len() < 2 {
        return None;
    }
    assert(pieces_view(w@)[1] == w@[1]@);
    parse_u64(w[1].as_slice())
}

/// (total, used) kilobytes of memory from the text of the system's memory
/// report. Used is the total less free memory, buffers and cache.
pub fn read_mem_used_kb(meminfo: &[u8]) -> (r: Option<(u64, u64)>)
    ensures
        r == mem_used_spec(meminfo@),
{
    let ls: Vec<Vec<u8>> = split_lines(meminfo);
    let ghost lv = pieces_view(ls@);
    let mut total: u64 = 0;
    let mut free: u64 = 0;
    let mut buffers: u64 = 0;
    let mut cached: u64 = 0;
    let mut i: usize = 0;
    while i < ls.len()
        invariant
            i <= ls@.len(),
            lv == pieces_view(ls@),
            lv == lines(meminfo@),
            mem_scan(lv, i as int) == Some((total, free, buffers, cached)),
        decreases ls@.len() - i,
    {
        assert(lv[i as int] == ls@[i as int]@);
        let line: &[u8] = ls[i].as_slice();
        if has_prefix(line, "MemTotal:".as_bytes()) {
            match read_second_number(line) {
                Some(v) => {
                    total = v;
                },
                None => {
                    proof {
                        lemma_mem_scan_none(lv, i as int + 1, lv.len() as int);
                    }
                    return None;
                },
            }
        } else if has_prefix(line, "MemFree:".as_bytes()) {
            match read_second_number(line) {
                Some(v) => {
                    free = v;
                },
                None => {
                    proof {
                        lemma_mem_scan_none(lv, i as int + 1, lv.len() as int);
                    }
                    return None;
                },
            }
        } else if has_prefix(line, "Buffers:".as_bytes()) {
            match read_second_number(line) {
                Some(v) => {
                    buffers = v;
                },
                None => {
                    proof {
                        lemma_mem_scan_none(lv, i as int + 1, lv.len() as int);
                    }
                    return None;
                },
            }
        } else if has_prefix(line, "Cached:".as_bytes()) {
            match read_second_number(line) {
                Some(v) => {
                    cached = v;
                },
                None => {
                    proof {
                        lemma_mem_scan_none(lv, i as int + 1, lv.len() as int);
                    }
                    return None;
                },
            }
        }
        i = i + 1;
    }
    if total == 0 {
        return None;
    }
    let taken: u128 = free as u128 + buffers as u128 + cached as u128;
    let used: u64 = if taken >= total as u128 {
        0
    } else {
        (total as u128 - taken) as u64
    };
    Some((total, used))
}

/// Once a labelled line has failed, the scan stays failed.
pub proof fn lemma_mem_scan_none(ls: Seq<Seq<u8>>, n: int, m: int)
    requires
        0 <= n <= m,
        mem_scan(ls, n) is None,
    ensures
        mem_scan(ls, m) is None,
    decreases m - n,
{
    if n < m {
        lemma_mem_scan_none(ls, n, m - 1);
    }
}

/// Total memory in megabytes from the text of the system's memory report;
/// zero if the report cannot be read.
pub fn read_mem_total_mb(meminfo: &[u8]) -> (r: u64)
    ensures
        r == mem_total_mb_spec(meminfo@),
{
    match read_mem_used_kb(meminfo) {
        Some(t) => t.0 / 1024,
        None => 0,
    }
}

/// Whether `name` names a processor's directory: `cpu` and then digits only.
pub open spec fn is_cpu_dir_name(name: Seq<u8>) -> bool {
    starts_with(name, "cpu".spec_bytes()) && all_digits(
        name.skip("cpu".spec_bytes().len() as int),
    )
}

/// Whether `name` names a thermal zone's directory.
pub open spec fn is_thermal_zone_name(name: Seq<u8>) -> bool {
    starts_with(name, "thermal_zone".spec_bytes())
}

/// The numbers that the first `n` files hold, in order; a file that holds
/// no number is passed over.
pub open spec fn file_numbers(files: Seq<Seq<u8>>, n: int) -> Seq<u64>
    decreases n,
{
    if n <= 0 {
        Seq::empty()
    } else {
        let rest = file_numbers(files, n - 1);
        match parse_u64_spec(trimmed(files[n - 1])) {
            Some(v) => rest.push(v),
            None => rest,
        }
    }
}

/// Mean of the frequencies that the files hold, rounded down; `None` if no
/// file holds one.
pub open spec fn cpu_freq_spec(files: Seq<Seq<u8>>) -> Option<u64> {
    let nums = file_numbers(files, files.len() as int);
    if nums.len() == 0 {
        None
    } else {
        Some((window_sum(nums) / nums.len()) as u64)
    }
}

/// The highest temperature among the first `n` files, but not below zero;
/// `None` if none of them holds a number.
pub open spec fn temp_scan(files: Seq<Seq<u8>>, n: int) -> Option<i64>
    decreases n,
{
    if n <= 0 {
        None
    } else {
        let prev = temp_scan(files, n - 1);
        match parse_i64_spec(trimmed(files[n - 1])) {
            Some(v) => {
                let floor = match prev {
                    Some(m) => m,
                    None => 0i64,
                };
                if v > floor {
                    Some(v)
                } else {
                    Some(floor)
                }
            },
            None => prev,
        }
    }
}

/// The three load averages, in thousandths, that `text` starts with.
pub open spec fn loadavg_spec(text: Seq<u8>) -> Option<(i64, i64, i64)> {
    let w = words(text);
    if w.len() < 3 {
        None
    } else {
        match (parse_milli_spec(w[0]), parse_milli_spec(w[1]), parse_milli_spec(w[2])) {
            (Some(a), Some(b), Some(c)) => Some((a, b, c)),
            _ => None,
        }
    }
}

/// Status of a graphics processor; every value in thousandths.
#[derive(Clone, Copy, Debug, PartialEq, Eq, Structural)]
pub struct GpuStatus {
    /// Utilisation in percent.
    pub util: i64,
    /// Memory utilisation in percent.
    pub mem_util: i64,
    /// Temperature in degrees.
    pub temp: i64,
    /// Core clock in megahertz.
    pub sm_clock: i64,
    /// Memory clock in megahertz.
    pub mem_clock: i64,
}

/// The status that the five fields at the start of `f` give.
pub open spec fn gpu_of_fields(f: Seq<Seq<u8>>) -> Option<GpuStatus> {
    if f.len() < 5 {
        None
    } else {
        match (
            parse_milli_spec(trimmed(f[0])),
            parse_milli_spec(trimmed(f[1])),
            parse_milli_spec(trimmed(f[2])),
            parse_milli_spec(trimmed(f[3])),
            parse_milli_spec(trimmed(f[4])),
        ) {
            (Some(a), Some(b), Some(c), Some(d), Some(e)) => Some(
                GpuStatus { util: a, mem_util: b, temp: c, sm_clock: d, mem_clock: e },
            ),
            _ => None,
        }
    }
}

/// The status that the first line of `text` gives: five numbers separated
/// by commas, white space around them ignored. `None` if the text is empty,
/// the line blank, a field missing or no number.
pub open spec fn gpu_status_spec(text: Seq<u8>) -> Option<GpuStatus> {
    let ls = lines(text);
    if ls.len() == 0 {
        None
    } else {
        let line = trimmed(ls[0]);
        if line.len() == 0 {
            None
        } else {
            gpu_of_fields(fields(line, COMMA))
        }
    }
}

/// Whether `name` names a processor's directory, whose frequency file is to
/// be read.
pub fn cpu_dir_name(name: &[u8]) -> (r: bool)
    ensures
        r == is_cpu_dir_name(name@),
{
    let prefix: &[u8] = "cpu".as_bytes();
    if !has_prefix(name, prefix) {
        return false;
    }
    let ghost rest = name@.skip(prefix@.len() as int);
    let mut i: usize = prefix.len();
    while i < name.len()
        invariant
            prefix@.len() <= i <= name@.len(),
            prefix@ == "cpu".spec_bytes(),
            starts_with(name@, prefix@),
            rest == name@.skip(prefix@.len() as int),
            forall|k: int| 0 <= k < i - prefix@.len() ==> is_digit(#[trigger] rest[k]),
        decreases name@.len() - i,
    {
        if !byte_is_digit(name[i]) {
            assert(!is_digit(rest[i - prefix@.len()]));
            return false;
        }
        i = i + 1;
    }
    true
}

/// Whether `name` names a thermal zone's directory, whose temperature file
/// is to be read.
pub fn thermal_zone_name(name: &[u8]) -> (r: bool)
    ensures
        r == is_thermal_zone_name(name@),
{
    has_prefix(name, "thermal_zone".as_bytes())
}

/// Mean current frequency in kilohertz, from the contents of the
/// processors' frequency files; `None` if no file holds a number.
pub fn read_cpu_freq_khz(files: &Vec<Vec<u8>>) -> (r: Option<u64>)
    ensures
        r == cpu_freq_spec(pieces_view(files@)),
{
    let ghost fv = pieces_view(files@);
    let mut total: u128 = 0;
    let mut count: usize = 0;
    let mut i: usize = 0;
    while i < files.len()
        invariant
            i <= files@.len(),
            fv == pieces_view(files@),
            count <= i,
            count == file_numbers(fv, i as int).len(),
            total as nat == window_sum(file_numbers(fv, i as int)),
            total <= count * u64::MAX,
        decreases files@.len() - i,
    {
        assert(fv[i as int] == files@[i as int]@);
        let t: Vec<u8> = trim(files[i].as_slice());
        match parse_u64(t.as_slice()) {
            Some(v) => {
                proof {
                    let before = file_numbers(fv, i as int);
                    assert(before.push(v).drop_last() =~= before);
                    assert((count + 1) * u64::MAX == count * u64::MAX + u64::MAX)
                        by (nonlinear_arith);
                    assert(count * u64::MAX <= usize::MAX * u64::MAX) by (nonlinear_arith)
                        requires
                            0 <= count <= usize::MAX,
                    ;
                }
                total = total + v as u128;
                count = count + 1;
            },
            None => {},
        }
        i = i + 1;
    }
    if count == 0 {
        return None;
    }
    proof {
        let nums = file_numbers(fv, files@.len() as int);
        crate::stats::lemma_sum_bounds(nums, 0, u64::MAX);
        let s = total as int;
        let n = count as int;
        assert(s / n <= u64::MAX) by (nonlinear_arith)
            requires
                n > 0,
                0 <= s <= u64::MAX * n,
        ;
    }
    Some((total / (count as u128)) as u64)
}

/// Highest temperature in thousandths of a degree, from the contents of the
/// thermal zones' temperature files; readings below zero count as zero;
/// `None` if no file holds a number.
pub fn read_temp_c(files: &Vec<Vec<u8>>) -> (r: Option<i64>)
    ensures
        r == temp_scan(pieces_view(files@), files@.len() as int),
{
    let ghost fv = pieces_view(files@);
    let mut max_milli: i64 = 0;
    let mut found: bool = false;
    let mut i: usize = 0;
    while i < files.len()
        invariant
            i <= files@.len(),
            fv == pieces_view(files@),
            !found ==> max_milli == 0,
            temp_scan(fv, i as int) == (if found {
                Some(max_milli)
            } else {
                None
            }),
        decreases files@.len() - i,
    {
        assert(fv[i as int] == files@[i as int]@);
        let t: Vec<u8> = trim(files[i].as_slice());
        match parse_i64(t.as_slice()) {
            Some(v) => {
                if v > max_milli {
                    max_milli = v;
                }
                found = true;
            },
            None => {},
        }
        i = i + 1;
    }
    if found {
        Some(max_milli)
    } else {
        None
    }
}

/// The load averages over one, five and fifteen minutes, in thousandths,
/// from the text of the system's load report.
pub fn read_loadavg(text: &[u8]) -> (r: Option<(i64, i64, i64)>)
    ensures
        r == loadavg_spec(text@),
{
    let w: Vec<Vec<u8>> = split_words(text);
    if w.len() < 3 {
        return None;
    }
    let ghost wv = pieces_view(w@);
    assert(wv[0] == w@[0]@ && wv[1] == w@[1]@ && wv[2] == w@[2]@);
    let one: Option<i64> = parse_milli(w[0].as_slice());
    let five: Option<i64> = parse_milli(w[1].as_slice());
    let fifteen: Option<i64> = parse_milli(w[2].as_slice());
    match (one, five, fifteen) {
        (Some(a), Some(b), Some(c)) => Some((a, b, c)),
        _ => None,
    }
}

/// The number that field `f` holds, white space around it ignored.
fn read_field(f: &[u8]) -> (r: Option<i64>)
    ensures
        r == parse_milli_spec(trimmed(f@)),
{
    let t: Vec<u8> = trim(f);
    parse_milli(t.as_slice())
}

/// Status of the graphics processor from the text of its status source.
pub fn read_gpu_status(text: &[u8]) -> (r: Option<GpuStatus>)
    ensures
        r == gpu_status_spec(text@),
{
    let ls: Vec<Vec<u8>> = split_lines(text);
    if ls.len() == 0 {
        return None;
    }
    assert(pieces_view(ls@)[0] == ls@[0]@);
    let line: Vec<u8> = trim(ls[0].as_slice());
    if line.len() == 0 {
        return None;
    }
    let f: Vec<Vec<u8>> = split_fields(line.as_slice(), COMMA);
    if f.len() < 5 {
        return None;
    }
    let ghost fv = pieces_view(f@);
    assert(fv[0] == f@[0]@ && fv[1] == f@[1]@ && fv[2] == f@[2]@ && fv[3] == f@[3]@ && fv[4]
        == f@[4]@);
    let a: Option<i64> = read_field(f[0].as_slice());
    let b: Option<i64> = read_field(f[1].as_slice());
    let c: Option<i64> = read_field(f[2].as_slice());
    let d: Option<i64> = read_field(f[3].as_slice());
    let e: Option<i64> = read_field(f[4].as_slice());
    match (a, b, c, d, e) {
        (Some(a), Some(b), Some(c), Some(d), Some(e)) => Some(
            GpuStatus { util: a, mem_util: b, temp: c, sm_clock: d, mem_clock: e },
        ),
        _ => None,
    }
}

} // verus!
