//! Text of the dashboard's chart blocks and rate summaries.

use vstd::prelude::*;
use vstd::string::StringSliceAdditionalSpecFns;
use crate::chart::{build_chart, chart_columns, chart_grid, effective_scale, grid_view};
use crate::numfmt::{
    decimal, fixed_text, padded_left, push_decimal, push_fixed, push_padded_left, push_repeated,
    push_scaled, push_str, repeated, round_div, scaled_text,
};
use crate::stats::{stats_window, window_of, window_stats_spec, MILLI};

verus! {

/// Width to which the numbers of a chart block are padded.
pub const NUMBER_WIDTH: usize = 6;

/// By how much a rate in thousandths is divided before it is printed: a
/// thousand, a million or a billion once it has reached that many units.
pub open spec fn rate_divisor(v: nat) -> nat {
    if v >= 1_000_000_000_000 {
        1_000_000_000
    } else if v >= 1_000_000_000 {
        1_000_000
    } else if v >= 1_000_000 {
        1_000
    } else {
        1
    }
}

/// The magnitude letter that goes with `rate_divisor`.
pub open spec fn rate_suffix(v: nat) -> Seq<u8> {
    if v >= 1_000_000_000_000 {
        seq![71u8]
    } else if v >= 1_000_000_000 {
        seq![77u8]
    } else if v >= 1_000_000 {
        seq![75u8]
    } else {
        Seq::<u8>::empty()
    }
}

/// A rate in thousandths as text: scaled to K, M or G, two decimals, the
/// magnitude letter, the unit.
pub open spec fn rate_text(v: nat, unit: Seq<u8>) -> Seq<u8> {
    scaled_text(round_div(v, 10 * rate_divisor(v)), 2) + rate_suffix(v) + unit
}

/// A number of a chart block: one decimal, padded to `NUMBER_WIDTH`.
pub open spec fn block_number(v: u64) -> Seq<u8> {
    padded_left(fixed_text(v as nat, 1), NUMBER_WIDTH as nat)
}

/// First line of a chart block: label, current value with its unit, and the
/// window's least, mean and greatest value.
pub open spec fn header_text(label: Seq<u8>, unit: Seq<u8>, current: u64, stats: (u64, u64, u64)) -> Seq<
    u8,
> {
    label + seq![32u8] + block_number(current) + unit + " (min ".spec_bytes() + block_number(
        stats.0,
    ) + " avg ".spec_bytes() + block_number(stats.1) + " max ".spec_bytes() + block_number(stats.2)
        + seq![41u8]
}

/// Rows that carry an axis label: top, middle and bottom.
pub open spec fn has_axis_label(row: int, height: int) -> bool {
    row == 0 || row == height - 1 || row == height / 2
}

/// What row `row` of a chart of `height` rows stands for, in whole units,
/// rounded: the top row for the scale, the bottom row for zero.
pub open spec fn axis_value(scale: u64, height: int, row: int) -> nat {
    round_div(
        (effective_scale(scale) * (height - 1 - row)) as nat,
        (1000 * (height - 1)) as nat,
    )
}

/// The six characters in front of a plot row.
pub open spec fn axis_label(scale: u64, height: int, row: int) -> Seq<u8> {
    if has_axis_label(row, height) {
        padded_left(decimal(axis_value(scale, height, row)), NUMBER_WIDTH as nat)
    } else {
        repeated(32u8, NUMBER_WIDTH as nat)
    }
}

/// The cells of a chart row as bytes.
pub open spec fn row_bytes(cells: Seq<char>) -> Seq<u8> {
    Seq::new(cells.len(), |i: int| cells[i] as u8)
}

/// One plot row: axis label, a bar, the cells.
pub open spec fn plot_line(scale: u64, height: int, row: int, cells: Seq<char>) -> Seq<u8> {
    axis_label(scale, height, row) + seq![124u8] + row_bytes(cells)
}

/// The line under the plot.
pub open spec fn base_line(width: nat) -> Seq<u8> {
    repeated(32u8, NUMBER_WIDTH as nat) + seq![43u8] + repeated(45u8, width)
}

/// The chart block of a metric: the header, one line per chart row, the
/// base line. `window` holds the samples that the statistics cover, `cols`
/// the values of the chart's columns.
pub open spec fn chart_block(
    label: Seq<u8>,
    unit: Seq<u8>,
    current: u64,
    window: Seq<u64>,
    cols: Seq<u64>,
    scale: u64,
    height: int,
) -> Seq<Seq<u8>> {
    Seq::new(
        (height + 2) as nat,
        |i: int|
            if i == 0 {
                header_text(label, unit, current, window_stats_spec(window))
            } else if i <= height {
                plot_line(scale, height, i - 1, chart_grid(cols, scale, height)[i - 1])
            } else {
                base_line(cols.len())
            },
    )
}

/// The lines of a sequence of byte vectors.
pub open spec fn lines_view(lines: Seq<Vec<u8>>) -> Seq<Seq<u8>> {
    Seq::new(lines.len(), |i: int| lines[i]@)
}

/// A rate in thousandths as text, scaled to K, M or G with two decimals and
/// followed by `unit`.
pub fn format_rate(value: u64, unit: &str) -> (r: Vec<u8>)
    ensures
        r@ == rate_text(value as nat, unit.spec_bytes()),
{
    let mut out: Vec<u8> = Vec::new();
    if value >= 1_000_000_000_000 {
        let h: u64 = value / 10_000_000_000 + if 2 * (value % 10_000_000_000) >= 10_000_000_000 {
            1u64
        } else {
            0u64
        };
        push_scaled(&mut out, h, 2);
        out.push(71);
    } else if value >= 1_000_000_000 {
        let h: u64 = value / 10_000_000 + if 2 * (value % 10_000_000) >= 10_000_000 {
            1u64
        } else {
            0u64
        };
        push_scaled(&mut out, h, 2);
        out.push(77);
    } else if value >= 1_000_000 {
        let h: u64 = value / 10_000 + if 2 * (value % 10_000) >= 10_000 {
            1u64
        } else {
            0u64
        };
        push_scaled(&mut out, h, 2);
        out.push(75);
    } else {
        let h: u64 = value / 10 + if 2 * (value % 10) >= 10 {
            1u64
        } else {
            0u64
        };
        push_scaled(&mut out, h, 2);
    }
    let ghost number = out@;
    push_str(&mut out, unit);
    assert(number =~= scaled_text(round_div(value as nat, 10 * rate_divisor(value as nat)), 2)
        + rate_suffix(value as nat));
    out
}

/// Appends a number of a chart block.
fn push_block_number(out: &mut Vec<u8>, v: u64)
    ensures
        final(out)@ == old(out)@ + block_number(v),
{
    let mut text: Vec<u8> = Vec::new();
    push_fixed(&mut text, v, 1);
    assert(text@ =~= fixed_text(v as nat, 1));
    push_padded_left(out, text.as_slice(), NUMBER_WIDTH);
}

/// The six characters in front of plot row `row`.
fn push_axis_label(out: &mut Vec<u8>, scale: u64, height: usize, row: usize)
    requires
        height >= 2,
        row < height,
    ensures
        final(out)@ == old(out)@ + axis_label(scale, height as int, row as int),
{
    if row == 0 || row == height - 1 || row == height / 2 {
        let m: u64 = if scale == 0 {
            MILLI
        } else {
            scale
        };
        let steps: usize = height - 1 - row;
        assert(m * steps <= u64::MAX * u64::MAX) by (nonlinear_arith)
            requires
                0 <= m <= u64::MAX,
                0 <= steps <= u64::MAX,
        ;
        let num: u128 = (m as u128) * (steps as u128);
        let den: u128 = 1000u128 * ((height - 1) as u128);
        let q: u128 = num / den;
        let rem: u128 = num % den;
        proof {
            // The quotient is far below the scale, so rounding up cannot overflow.
            let h = (height - 1) as int;
            assert(q * 1000 <= m) by (nonlinear_arith)
                requires
                    q == num as int / den as int,
                    den == 1000 * h,
                    num == (m as int) * (steps as int),
                    0 <= steps <= h,
                    0 <= m,
                    h >= 1,
            ;
        }
        let value: u64 = if 2 * rem >= den {
            (q + 1) as u64
        } else {
            q as u64
        };
        let mut text: Vec<u8> = Vec::new();
        push_decimal(&mut text, value);
        assert(text@ =~= decimal(axis_value(scale, height as int, row as int)));
        push_padded_left(out, text.as_slice(), NUMBER_WIDTH);
    } else {
        push_repeated(out, 32, NUMBER_WIDTH);
    }
}

/// Appends the cells of a chart row.
fn push_cells(out: &mut Vec<u8>, cells: &Vec<char>)
    ensures
        final(out)@ == old(out)@ + row_bytes(cells@),
{
    let mut i: usize = 0;
    while i < cells.len()
        invariant
            i <= cells@.len(),
            out@ == old(out)@ + row_bytes(cells@).take(i as int),
        decreases cells@.len() - i,
    {
        let c: char = cells[i];
        out.push(c as u8);
        assert(row_bytes(cells@).take(i + 1) =~= row_bytes(cells@).take(i as int).push(
            cells@[i as int] as u8,
        ));
        i = i + 1;
    }
    assert(row_bytes(cells@).take(cells@.len() as int) =~= row_bytes(cells@));
}

/// The chart block of one metric: a header line with the current value and
/// the window's statistics, the plot with axis labels on its top, middle and
/// bottom rows, and a base line.
pub fn render_chart(
    label: &str,
    unit: &str,
    current: u64,
    hist: &[u64],
    head: usize,
    filled: usize,
    max: u64,
    width: usize,
    height: usize,
) -> (lines: Vec<Vec<u8>>)
    requires
        height >= 2,
        width <= hist@.len(),
        filled <= hist@.len(),
    ensures
        lines_view(lines@) == chart_block(
            label.spec_bytes(),
            unit.spec_bytes(),
            current,
            window_of(hist@, head as int, filled as int),
            chart_columns(hist@, head as int, width as int),
            max,
            height as int,
        ),
{
    let stats: (u64, u64, u64) = stats_window(hist, head, filled);
    let ghost cols = chart_columns(hist@, head as int, width as int);
    let mut lines: Vec<Vec<u8>> = Vec::new();

    let mut first: Vec<u8> = Vec::new();
    push_str(&mut first, label);
    first.push(32);
    push_block_number(&mut first, current);
    push_str(&mut first, unit);
    push_str(&mut first, " (min ");
    push_block_number(&mut first, stats.0);
    push_str(&mut first, " avg ");
    push_block_number(&mut first, stats.1);
    push_str(&mut first, " max ");
    push_block_number(&mut first, stats.2);
    first.push(41);
    assert(first@ =~= header_text(label.spec_bytes(), unit.spec_bytes(), current, stats));
    lines.push(first);

    let grid: Vec<Vec<char>> = build_chart(hist, head, width, height, max);
    let ghost g = grid_view(grid@);
    let mut row: usize = 0;
    while row < height
        invariant
            height >= 2,
            row <= height,
            grid@.len() == height,
            g == grid_view(grid@),
            lines@.len() == row + 1,
            lines@[0]@ == header_text(label.spec_bytes(), unit.spec_bytes(), current, stats),
            forall|k: int|
                0 <= k < row ==> (#[trigger] lines@[k + 1])@ == plot_line(max, height as int, k, g[k]),
        decreases height - row,
    {
        let mut line: Vec<u8> = Vec::new();
        push_axis_label(&mut line, max, height, row);
        line.push(124);
        push_cells(&mut line, &grid[row]);
        assert(line@ =~= plot_line(max, height as int, row as int, g[row as int]));
        lines.push(line);
        row = row + 1;
    }

    let mut last: Vec<u8> = Vec::new();
    push_repeated(&mut last, 32, NUMBER_WIDTH);
    last.push(43);
    push_repeated(&mut last, 45, width);
    assert(last@ =~= base_line(width as nat));
    lines.push(last);

    proof {
        let lv = lines_view(lines@);
        let want = chart_block(
            label.spec_bytes(),
            unit.spec_bytes(),
            current,
            window_of(hist@, head as int, filled as int),
            cols,
            max,
            height as int,
        );
        assert forall|i: int| 0 <= i < height + 2 implies #[trigger] lv[i] == want[i] by {
            if 1 <= i <= height {
                assert(lines@[(i - 1) + 1]@ == plot_line(max, height as int, i - 1, g[i - 1]));
            }
        }
        assert(lv =~= want);
    }
    lines
}

} // verus!
