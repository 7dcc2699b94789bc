//! The record of one tick as a line of delimited text: a fixed number of
//! fields in a fixed order, for the plain output stream and for the log.

use vstd::prelude::*;
use vstd::string::StringSliceAdditionalSpecFns;
use crate::numfmt::{
    decimal, fixed_text, is_number_byte, lemma_fixed_text_is_number, lemma_scaled_text_is_number,
    number_text, push_bytes, push_decimal, push_fixed, push_scaled, push_signed_fixed, push_str,
    round_div, scaled_text, signed_fixed_text,
};
use crate::sampler::Sample;
use crate::sources::GpuStatus;
use crate::tokens::{fields, fields_upto, pieces_view, COMMA};

verus! {

/// Number of fields of a record.
pub const FIELD_COUNT: usize = 19;

/// What is written for a value that is not available: minus one, in
/// thousandths.
pub const SENTINEL: i64 = -1000;

/// Where a record goes. The two differ in the decimals of some fields.
#[derive(Clone, Copy, Debug, PartialEq, Eq, Structural)]
pub enum RecordStyle {
    /// The output stream, when it is no terminal.
    Stream,
    /// The persisted log.
    Log,
}

/// Decimals of the percentages, the throughput and the temperatures.
pub open spec fn coarse_decimals(style: RecordStyle) -> nat {
    match style {
        RecordStyle::Stream => 1,
        RecordStyle::Log => 2,
    }
}

/// The value, or the sentinel where there is none.
pub open spec fn or_sentinel(v: Option<i64>) -> int {
    match v {
        Some(x) => x as int,
        None => SENTINEL as int,
    }
}

/// The frequency field: gigahertz with three decimals.
pub open spec fn freq_text(freq_khz: Option<u64>) -> Seq<u8> {
    match freq_khz {
        Some(k) => scaled_text(round_div(k as nat, 1000), 3),
        None => signed_fixed_text(SENTINEL as int, 3),
    }
}

/// One of the three load averages.
pub open spec fn load_part(load: Option<(i64, i64, i64)>, i: int) -> Option<i64> {
    match load {
        Some(l) => Some(
            if i == 0 {
                l.0
            } else if i == 1 {
                l.1
            } else {
                l.2
            },
        ),
        None => None,
    }
}

/// One of the five values of the graphics processor.
pub open spec fn gpu_part(gpu: Option<GpuStatus>, i: int) -> Option<i64> {
    match gpu {
        Some(g) => Some(
            if i == 0 {
                g.util
            } else if i == 1 {
                g.mem_util
            } else if i == 2 {
                g.temp
            } else if i == 3 {
                g.sm_clock
            } else {
                g.mem_clock
            },
        ),
        None => None,
    }
}

/// The fields of the record of `s`, in their order: time in seconds;
/// processor, memory, disk throughput; the three rates; temperature,
/// frequency, the three load averages; memory used and in all; the five
/// values of the graphics processor. A value that is not available is
/// written as the sentinel.
pub open spec fn record_fields_spec(s: Sample, style: RecordStyle) -> Seq<Seq<u8>> {
    let d = coarse_decimals(style);
    seq![
        fixed_text(s.elapsed_ms as nat, 3),
        fixed_text(s.cpu_pct as nat, d),
        fixed_text(s.mem_pct as nat, d),
        fixed_text(s.disk_mb_s as nat, d),
        fixed_text(s.cpu_ops_s as nat, 2),
        fixed_text(s.mem_ops_s as nat, 2),
        fixed_text(s.disk_iops as nat, 2),
        signed_fixed_text(or_sentinel(s.temp_c), d),
        freq_text(s.freq_khz),
        signed_fixed_text(or_sentinel(load_part(s.load, 0)), 2),
        signed_fixed_text(or_sentinel(load_part(s.load, 1)), 2),
        signed_fixed_text(or_sentinel(load_part(s.load, 2)), 2),
        decimal(s.mem_used_mb as nat),
        decimal(s.mem_total_mb as nat),
        signed_fixed_text(or_sentinel(gpu_part(s.gpu, 0)), d),
        signed_fixed_text(or_sentinel(gpu_part(s.gpu, 1)), d),
        signed_fixed_text(or_sentinel(gpu_part(s.gpu, 2)), d),
        signed_fixed_text(or_sentinel(gpu_part(s.gpu, 3)), 0),
        signed_fixed_text(or_sentinel(gpu_part(s.gpu, 4)), 0),
    ]
}

/// The names of the fields, in the order of the fields.
pub open spec fn header_fields_spec() -> Seq<Seq<u8>> {
    seq![
        "ts".spec_bytes(),
        "cpu_pct".spec_bytes(),
        "mem_pct".spec_bytes(),
        "disk_mb_s".spec_bytes(),
        "cpu_ops_s".spec_bytes(),
        "mem_ops_s".spec_bytes(),
        "disk_iops".spec_bytes(),
        "temp_c".spec_bytes(),
        "cpu_freq_ghz".spec_bytes(),
        "load1".spec_bytes(),
        "load5".spec_bytes(),
        "load15".spec_bytes(),
        "mem_used_mb".spec_bytes(),
        "mem_total_mb".spec_bytes(),
        "gpu_util".spec_bytes(),
        "gpu_mem_util".spec_bytes(),
        "gpu_temp_c".spec_bytes(),
        "gpu_sm_clock_mhz".spec_bytes(),
        "gpu_mem_clock_mhz".spec_bytes(),
    ]
}

/// The pieces of `fs` in a row with `sep` between them.
pub open spec fn joined(fs: Seq<Seq<u8>>, sep: u8) -> Seq<u8>
    decreases fs.len(),
{
    if fs.len() == 0 {
        Seq::empty()
    } else if fs.len() == 1 {
        fs[0]
    } else {
        joined(fs.drop_last(), sep).push(sep) + fs.last()
    }
}

/// The text of a value that may be missing.
fn optional_text(v: Option<i64>, decimals: u8) -> (r: Vec<u8>)
    requires
        decimals <= 3,
    ensures
        r@ == signed_fixed_text(or_sentinel(v), decimals as nat),
{
    let mut out: Vec<u8> = Vec::new();
    let x: i64 = match v {
        Some(x) => x,
        None => SENTINEL,
    };
    push_signed_fixed(&mut out, x, decimals);
    assert(out@ =~= signed_fixed_text(or_sentinel(v), decimals as nat));
    out
}

/// The text of a value in thousandths.
fn value_text(v: u64, decimals: u8) -> (r: Vec<u8>)
    requires
        decimals <= 3,
    ensures
        r@ == fixed_text(v as nat, decimals as nat),
{
    let mut out: Vec<u8> = Vec::new();
    push_fixed(&mut out, v, decimals);
    assert(out@ =~= fixed_text(v as nat, decimals as nat));
    out
}

/// The text of a whole number.
fn count_text(v: u64) -> (r: Vec<u8>)
    ensures
        r@ == decimal(v as nat),
{
    let mut out: Vec<u8> = Vec::new();
    push_decimal(&mut out, v);
    assert(out@ =~= decimal(v as nat));
    out
}

/// The text of the frequency field.
fn frequency_text(freq_khz: Option<u64>) -> (r: Vec<u8>)
    ensures
        r@ == freq_text(freq_khz),
{
    let mut out: Vec<u8> = Vec::new();
    match freq_khz {
        Some(k) => {
            let mhz: u64 = k / 1000 + if 2 * (k % 1000) >= 1000 {
                1u64
            } else {
                0u64
            };
            push_scaled(&mut out, mhz, 3);
        },
        None => {
            push_signed_fixed(&mut out, SENTINEL, 3);
        },
    }
    assert(out@ =~= freq_text(freq_khz));
    out
}

/// The name of a field.
fn name_text(name: &str) -> (r: Vec<u8>)
    ensures
        r@ == name.spec_bytes(),
{
    let mut out: Vec<u8> = Vec::new();
    push_str(&mut out, name);
    assert(out@ =~= name.spec_bytes());
    out
}

/// The fields of the record of `s`.
pub fn record_fields(s: &Sample, style: RecordStyle) -> (r: Vec<Vec<u8>>)
    ensures
        pieces_view(r@) == record_fields_spec(*s, style),
        r@.len() == FIELD_COUNT,
{
    let d: u8 = match style {
        RecordStyle::Stream => 1,
        RecordStyle::Log => 2,
    };
    let load: (Option<i64>, Option<i64>, Option<i64>) = match s.load {
        Some(l) => (Some(l.0), Some(l.1), Some(l.2)),
        None => (None, None, None),
    };
    let gpu: (Option<i64>, Option<i64>, Option<i64>, Option<i64>, Option<i64>) = match s.gpu {
        Some(g) => (Some(g.util), Some(g.mem_util), Some(g.temp), Some(g.sm_clock), Some(g.mem_clock)),
        None => (None, None, None, None, None),
    };
    let mut r: Vec<Vec<u8>> = Vec::new();
    r.push(value_text(s.elapsed_ms, 3));
    r.push(value_text(s.cpu_pct, d));
    r.push(value_text(s.mem_pct, d));
    r.push(value_text(s.disk_mb_s, d));
    r.push(value_text(s.cpu_ops_s, 2));
    r.push(value_text(s.mem_ops_s, 2));
    r.push(value_text(s.disk_iops, 2));
    r.push(optional_text(s.temp_c, d));
    r.push(frequency_text(s.freq_khz));
    r.push(optional_text(load.0, 2));
    r.push(optional_text(load.1, 2));
    r.push(optional_text(load.2, 2));
    r.push(count_text(s.mem_used_mb));
    r.push(count_text(s.mem_total_mb));
    r.push(optional_text(gpu.0, d));
    r.push(optional_text(gpu.1, d));
    r.push(optional_text(gpu.2, d));
    r.push(optional_text(gpu.3, 0));
    r.push(optional_text(gpu.4, 0));
    assert(pieces_view(r@) =~= record_fields_spec(*s, style));
    r
}

/// The names of the fields.
pub fn header_fields() -> (r: Vec<Vec<u8>>)
    ensures
        pieces_view(r@) == header_fields_spec(),
        r@.len() == FIELD_COUNT,
{
    let mut r: Vec<Vec<u8>> = Vec::new();
    r.push(name_text("ts"));
    r.push(name_text("cpu_pct"));
    r.push(name_text("mem_pct"));
    r.push(name_text("disk_mb_s"));
    r.push(name_text("cpu_ops_s"));
    r.push(name_text("mem_ops_s"));
    r.push(name_text("disk_iops"));
    r.push(name_text("temp_c"));
    r.push(name_text("cpu_freq_ghz"));
    r.push(name_text("load1"));
    r.push(name_text("load5"));
    r.push(name_text("load15"));
    r.push(name_text("mem_used_mb"));
    r.push(name_text("mem_total_mb"));
    r.push(name_text("gpu_util"));
    r.push(name_text("gpu_mem_util"));
    r.push(name_text("gpu_temp_c"));
    r.push(name_text("gpu_sm_clock_mhz"));
    r.push(name_text("gpu_mem_clock_mhz"));
    assert(pieces_view(r@) =~= header_fields_spec());
    r
}

/// The pieces in a row with `sep` between them.
pub fn join_fields(fs: &Vec<Vec<u8>>, sep: u8) -> (r: Vec<u8>)
    ensures
        r@ == joined(pieces_view(fs@), sep),
{
    let ghost fv = pieces_view(fs@);
    let mut out: Vec<u8> = Vec::new();
    let mut i: usize = 0;
    while i < fs.len()
        invariant
            i <= fs@.len(),
            fv == pieces_view(fs@),
            out@ == joined(fv.take(i as int), sep),
        decreases fs@.len() - i,
    {
        let ghost before = out@;
        if i > 0 {
            out.push(sep);
        }
        push_bytes(&mut out, fs[i].as_slice());
        proof {
            assert(fv[i as int] == fs@[i as int]@);
            assert(fv.take(i + 1).drop_last() =~= fv.take(i as int));
            assert(fv.take(i + 1).last() == fv[i as int]);
            if i == 0 {
                assert(out@ =~= fv[0]);
            } else {
                assert(out@ =~= before.push(sep) + fv[i as int]);
            }
        }
        i = i + 1;
    }
    assert(fv.take(fs@.len() as int) =~= fv);
    out
}

/// The header line of the log: the names of the fields, separated by
/// commas.
pub fn record_header() -> (r: Vec<u8>)
    ensures
        r@ == joined(header_fields_spec(), COMMA),
        fields(r@, COMMA) == header_fields_spec(),
{
    let names: Vec<Vec<u8>> = header_fields();
    proof {
        lemma_header_line_fields();
    }
    join_fields(&names, COMMA)
}

/// The line of one tick: the fields of its record, separated by commas.
pub fn record_line(s: &Sample, style: RecordStyle) -> (r: Vec<u8>)
    ensures
        r@ == joined(record_fields_spec(*s, style), COMMA),
        fields(r@, COMMA) == record_fields_spec(*s, style),
{
    let texts: Vec<Vec<u8>> = record_fields(s, style);
    proof {
        lemma_record_line_fields(*s, style);
    }
    join_fields(&texts, COMMA)
}

/// No byte of `s` is `sep`.
pub open spec fn free_of(s: Seq<u8>, sep: u8) -> bool {
    forall|i: int| 0 <= i < s.len() ==> #[trigger] s[i] != sep
}

/// What is cut from the first `n` bytes of a text does not depend on what
/// follows them.
pub proof fn lemma_fields_upto_prefix(x: Seq<u8>, y: Seq<u8>, sep: u8, n: int)
    requires
        0 <= n <= x.len(),
    ensures
        fields_upto(x + y, sep, n) == fields_upto(x, sep, n),
    decreases n,
{
    if n > 0 {
        lemma_fields_upto_prefix(x, y, sep, n - 1);
        assert((x + y)[n - 1] == x[n - 1]);
    }
}

/// Bytes that are no separator only lengthen the open field.
pub proof fn lemma_fields_upto_append(x: Seq<u8>, b: Seq<u8>, sep: u8, n: int)
    requires
        free_of(b, sep),
        0 <= n <= b.len(),
    ensures
        fields_upto(x + b, sep, x.len() + n) == (
            fields_upto(x, sep, x.len() as int).0,
            fields_upto(x, sep, x.len() as int).1 + b.take(n),
        ),
    decreases n,
{
    if n == 0 {
        lemma_fields_upto_prefix(x, b, sep, x.len() as int);
        assert(fields_upto(x, sep, x.len() as int).1 + b.take(0) =~= fields_upto(
            x,
            sep,
            x.len() as int,
        ).1);
    } else {
        lemma_fields_upto_append(x, b, sep, n - 1);
        assert((x + b)[x.len() + n - 1] == b[n - 1]);
        assert(b.take(n) =~= b.take(n - 1).push(b[n - 1]));
        assert((fields_upto(x, sep, x.len() as int).1 + b.take(n - 1)).push(b[n - 1])
            =~= fields_upto(x, sep, x.len() as int).1 + b.take(n));
    }
}

/// Cutting a joined text at the separators gives back the pieces, provided
/// that there is at least one piece and none of them holds the separator.
pub proof fn lemma_fields_of_joined(fs: Seq<Seq<u8>>, sep: u8)
    requires
        fs.len() >= 1,
        forall|i: int| 0 <= i < fs.len() ==> free_of(#[trigger] fs[i], sep),
    ensures
        fields(joined(fs, sep), sep) == fs,
    decreases fs.len(),
{
    let empty = Seq::<u8>::empty();
    if fs.len() == 1 {
        lemma_fields_upto_append(empty, fs[0], sep, fs[0].len() as int);
        assert(empty + fs[0] =~= fs[0]);
        assert(fs[0].take(fs[0].len() as int) =~= fs[0]);
        assert(empty + fs[0] =~= fs[0]);
        assert(fields(joined(fs, sep), sep) =~= fs);
    } else {
        let init = fs.drop_last();
        let last = fs.last();
        assert forall|i: int| 0 <= i < init.len() implies free_of(#[trigger] init[i], sep) by {
            assert(init[i] == fs[i]);
        }
        lemma_fields_of_joined(init, sep);
        let j = joined(init, sep);
        let x = j.push(sep);
        let parts = fields_upto(j, sep, j.len() as int);
        assert(parts.0.push(parts.1) == init);
        assert(x =~= j + seq![sep]);
        lemma_fields_upto_prefix(j, seq![sep], sep, j.len() as int);
        assert(fields_upto(x, sep, x.len() as int) == (init, empty));
        lemma_fields_upto_append(x, last, sep, last.len() as int);
        assert(last.take(last.len() as int) =~= last);
        assert(empty + last =~= last);
        assert(fields(joined(fs, sep), sep) =~= fs);
    }
}

/// A record line cut at its commas gives the record's fields: their number
/// is `FIELD_COUNT` whatever the sample holds, and none of them is empty.
pub proof fn lemma_record_line_fields(s: Sample, style: RecordStyle)
    ensures
        fields(joined(record_fields_spec(s, style), COMMA), COMMA) == record_fields_spec(s, style),
        record_fields_spec(s, style).len() == FIELD_COUNT,
        forall|i: int|
            0 <= i < FIELD_COUNT ==> (#[trigger] record_fields_spec(s, style)[i]).len() >= 1,
{
    let fs = record_fields_spec(s, style);
    let d = coarse_decimals(style);
    lemma_fixed_text_is_number(s.elapsed_ms as int, 3);
    lemma_fixed_text_is_number(s.cpu_pct as int, d);
    lemma_fixed_text_is_number(s.mem_pct as int, d);
    lemma_fixed_text_is_number(s.disk_mb_s as int, d);
    lemma_fixed_text_is_number(s.cpu_ops_s as int, 2);
    lemma_fixed_text_is_number(s.mem_ops_s as int, 2);
    lemma_fixed_text_is_number(s.disk_iops as int, 2);
    lemma_fixed_text_is_number(or_sentinel(s.temp_c), d);
    match s.freq_khz {
        Some(k) => {
            lemma_scaled_text_is_number(round_div(k as nat, 1000), 3);
        },
        None => {
            lemma_fixed_text_is_number(SENTINEL as int, 3);
        },
    }
    lemma_fixed_text_is_number(or_sentinel(load_part(s.load, 0)), 2);
    lemma_fixed_text_is_number(or_sentinel(load_part(s.load, 1)), 2);
    lemma_fixed_text_is_number(or_sentinel(load_part(s.load, 2)), 2);
    lemma_scaled_text_is_number(s.mem_used_mb as nat, 0);
    lemma_scaled_text_is_number(s.mem_total_mb as nat, 0);
    lemma_fixed_text_is_number(or_sentinel(gpu_part(s.gpu, 0)), d);
    lemma_fixed_text_is_number(or_sentinel(gpu_part(s.gpu, 1)), d);
    lemma_fixed_text_is_number(or_sentinel(gpu_part(s.gpu, 2)), d);
    lemma_fixed_text_is_number(or_sentinel(gpu_part(s.gpu, 3)), 0);
    lemma_fixed_text_is_number(or_sentinel(gpu_part(s.gpu, 4)), 0);
    assert forall|i: int| 0 <= i < fs.len() implies free_of(#[trigger] fs[i], COMMA) && fs[i].len()
        >= 1 by {
        assert(number_text(fs[i]));
        assert forall|k: int| 0 <= k < fs[i].len() implies #[trigger] fs[i][k] != COMMA by {
            assert(is_number_byte(fs[i][k]));
        }
    }
    lemma_fields_of_joined(fs, COMMA);
}

/// A name of ASCII letters, digits and underscores holds no comma.
proof fn lemma_name_free_of_comma(name: &str)
    requires
        forall|i: int| 0 <= i < name@.len() ==> '0' <= #[trigger] name@[i] <= 'z',
    ensures
        free_of(name.spec_bytes(), COMMA),
{
    assert(vstd::string::is_ascii(name));
    vstd::string::is_ascii_spec_bytes(name);
    let b = name.spec_bytes();
    assert forall|i: int| 0 <= i < b.len() implies #[trigger] b[i] != COMMA by {
        assert(b[i] == name@[i] as u8);
    }
}

/// The names of the fields for the sampled values hold no comma.
proof fn lemma_header_names_0()
    ensures
        free_of("ts".spec_bytes(), COMMA),
        free_of("cpu_pct".spec_bytes(), COMMA),
        free_of("mem_pct".spec_bytes(), COMMA),
        free_of("disk_mb_s".spec_bytes(), COMMA),
        free_of("cpu_ops_s".spec_bytes(), COMMA),
        free_of("mem_ops_s".spec_bytes(), COMMA),
        free_of("disk_iops".spec_bytes(), COMMA),
{
    assert(free_of("ts".spec_bytes(), COMMA)) by {
        reveal_strlit("ts");
        lemma_name_free_of_comma("ts");
    }
    assert(free_of("cpu_pct".spec_bytes(), COMMA)) by {
        reveal_strlit("cpu_pct");
        lemma_name_free_of_comma("cpu_pct");
    }
    assert(free_of("mem_pct".spec_bytes(), COMMA)) by {
        reveal_strlit("mem_pct");
        lemma_name_free_of_comma("mem_pct");
    }
    assert(free_of("disk_mb_s".spec_bytes(), COMMA)) by {
        reveal_strlit("disk_mb_s");
        lemma_name_free_of_comma("disk_mb_s");
    }
    assert(free_of("cpu_ops_s".spec_bytes(), COMMA)) by {
        reveal_strlit("cpu_ops_s");
        lemma_name_free_of_comma("cpu_ops_s");
    }
    assert(free_of("mem_ops_s".spec_bytes(), COMMA)) by {
        reveal_strlit("mem_ops_s");
        lemma_name_free_of_comma("mem_ops_s");
    }
    assert(free_of("disk_iops".spec_bytes(), COMMA)) by {
        reveal_strlit("disk_iops");
        lemma_name_free_of_comma("disk_iops");
    }
}

/// The names of the fields for the sensors and the memory hold no comma.
proof fn lemma_header_names_1()
    ensures
        free_of("temp_c".spec_bytes(), COMMA),
        free_of("cpu_freq_ghz".spec_bytes(), COMMA),
        free_of("load1".spec_bytes(), COMMA),
        free_of("load5".spec_bytes(), COMMA),
        free_of("load15".spec_bytes(), COMMA),
        free_of("mem_used_mb".spec_bytes(), COMMA),
        free_of("mem_total_mb".spec_bytes(), COMMA),
{
    assert(free_of("temp_c".spec_bytes(), COMMA)) by {
        reveal_strlit("temp_c");
        lemma_name_free_of_comma("temp_c");
    }
    assert(free_of("cpu_freq_ghz".spec_bytes(), COMMA)) by {
        reveal_strlit("cpu_freq_ghz");
        lemma_name_free_of_comma("cpu_freq_ghz");
    }
    assert(free_of("load1".spec_bytes(), COMMA)) by {
        reveal_strlit("load1");
        lemma_name_free_of_comma("load1");
    }
    assert(free_of("load5".spec_bytes(), COMMA)) by {
        reveal_strlit("load5");
        lemma_name_free_of_comma("load5");
    }
    assert(free_of("load15".spec_bytes(), COMMA)) by {
        reveal_strlit("load15");
        lemma_name_free_of_comma("load15");
    }
    assert(free_of("mem_used_mb".spec_bytes(), COMMA)) by {
        reveal_strlit("mem_used_mb");
        lemma_name_free_of_comma("mem_used_mb");
    }
    assert(free_of("mem_total_mb".spec_bytes(), COMMA)) by {
        reveal_strlit("mem_total_mb");
        lemma_name_free_of_comma("mem_total_mb");
    }
}

/// The names of the fields for the graphics processor hold no comma.
proof fn lemma_header_names_2()
    ensures
        free_of("gpu_util".spec_bytes(), COMMA),
        free_of("gpu_mem_util".spec_bytes(), COMMA),
        free_of("gpu_temp_c".spec_bytes(), COMMA),
        free_of("gpu_sm_clock_mhz".spec_bytes(), COMMA),
        free_of("gpu_mem_clock_mhz".spec_bytes(), COMMA),
{
    assert(free_of("gpu_util".spec_bytes(), COMMA)) by {
        reveal_strlit("gpu_util");
        lemma_name_free_of_comma("gpu_util");
    }
    assert(free_of("gpu_mem_util".spec_bytes(), COMMA)) by {
        reveal_strlit("gpu_mem_util");
        lemma_name_free_of_comma("gpu_mem_util");
    }
    assert(free_of("gpu_temp_c".spec_bytes(), COMMA)) by {
        reveal_strlit("gpu_temp_c");
        lemma_name_free_of_comma("gpu_temp_c");
    }
    assert(free_of("gpu_sm_clock_mhz".spec_bytes(), COMMA)) by {
        reveal_strlit("gpu_sm_clock_mhz");
        lemma_name_free_of_comma("gpu_sm_clock_mhz");
    }
    assert(free_of("gpu_mem_clock_mhz".spec_bytes(), COMMA)) by {
        reveal_strlit("gpu_mem_clock_mhz");
        lemma_name_free_of_comma("gpu_mem_clock_mhz");
    }
}

/// No name of a field holds a comma.
proof fn lemma_header_names_free_of_comma(i: int)
    requires
        0 <= i < FIELD_COUNT,
    ensures
        free_of(header_fields_spec()[i], COMMA),
{
    lemma_header_names_0();
    lemma_header_names_1();
    lemma_header_names_2();
}

/// The header line cut at its commas gives the names of the fields: as many
/// as a record has fields.
pub proof fn lemma_header_line_fields()
    ensures
        fields(joined(header_fields_spec(), COMMA), COMMA) == header_fields_spec(),
        header_fields_spec().len() == FIELD_COUNT,
{
    let fs = header_fields_spec();
    assert forall|i: int| 0 <= i < fs.len() implies free_of(#[trigger] fs[i], COMMA) by {
        lemma_header_names_free_of_comma(i);
    }
    lemma_fields_of_joined(fs, COMMA);
}

/// No group of optional values is written in part: without a status of the
/// graphics processor each of its five fields holds the sentinel, and
/// without load averages each of their three fields does.
pub proof fn lemma_absent_groups_are_sentinel(s: Sample, style: RecordStyle)
    ensures
        s.gpu is None ==> {
            let f = record_fields_spec(s, style);
            let d = coarse_decimals(style);
            &&& f[14] == signed_fixed_text(SENTINEL as int, d)
            &&& f[15] == signed_fixed_text(SENTINEL as int, d)
            &&& f[16] == signed_fixed_text(SENTINEL as int, d)
            &&& f[17] == signed_fixed_text(SENTINEL as int, 0)
            &&& f[18] == signed_fixed_text(SENTINEL as int, 0)
        },
        s.load is None ==> {
            let f = record_fields_spec(s, style);
            &&& f[9] == signed_fixed_text(SENTINEL as int, 2)
            &&& f[10] == signed_fixed_text(SENTINEL as int, 2)
            &&& f[11] == signed_fixed_text(SENTINEL as int, 2)
        },
{
}

} // verus!
