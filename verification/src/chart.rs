//! Layout of the line chart of one metric: one column per sample, oldest at
//! the left, a marker at each sample and connectors between neighbours.

use vstd::prelude::*;
use vstd::arithmetic::div_mod::{
    lemma_add_mod_noop, lemma_div_is_ordered, lemma_div_multiples_vanish,
    lemma_fundamental_div_mod, lemma_small_mod,
};
use crate::stats::MILLI;

verus! {

/// Marks a sample.
pub const MARKER: char = '*';

/// Joins two neighbouring samples that lie on different rows.
pub const CONNECTOR: char = '|';

/// An empty cell.
pub const BLANK: char = ' ';

/// The scale that is used: a scale of zero stands for one unit.
pub open spec fn effective_scale(scale: u64) -> int {
    if scale == 0 {
        MILLI as int
    } else {
        scale as int
    }
}

/// `value` cut off at the scale.
pub open spec fn clamped_value(value: u64, scale: u64) -> int {
    if value as int > effective_scale(scale) {
        effective_scale(scale)
    } else {
        value as int
    }
}

/// How many rows above the bottom row a value is drawn, on a chart of
/// `height` rows whose top row stands for `scale`: the value's share of the
/// scale times `height - 1`, rounded to the nearest row, halves upwards.
pub open spec fn chart_level(value: u64, scale: u64, height: int) -> int {
    let m = effective_scale(scale);
    let p = (height - 1) * clamped_value(value, scale);
    p / m + if 2 * (p % m) >= m {
        1int
    } else {
        0int
    }
}

/// Row of a value, counted from the top row, which is row zero.
pub open spec fn chart_row(value: u64, scale: u64, height: int) -> int {
    height - 1 - chart_level(value, scale, height)
}

/// Values of the `width` columns of a chart, left to right: the slots of the
/// ring in the order written, starting with the one that is overwritten next.
pub open spec fn chart_columns(hist: Seq<u64>, head: int, width: int) -> Seq<u64> {
    Seq::new(width as nat, |x: int| hist[(head + x) % width])
}

/// Whether row `r` lies between rows `a` and `b`, ends included.
pub open spec fn row_between(r: int, a: int, b: int) -> bool {
    (a <= r <= b) || (b <= r <= a)
}

/// The character at row `r`, column `x` of the chart of `cols`: the marker
/// on the row of the column's value; a connector on the rows from the
/// previous column's row to this one; blank elsewhere.
pub open spec fn chart_cell(cols: Seq<u64>, scale: u64, height: int, r: int, x: int) -> char {
    let row = chart_row(cols[x], scale, height);
    if r == row {
        MARKER
    } else if x > 0 && row_between(r, chart_row(cols[x - 1], scale, height), row) {
        CONNECTOR
    } else {
        BLANK
    }
}

/// The chart of `cols`: `height` rows of one cell per column.
pub open spec fn chart_grid(cols: Seq<u64>, scale: u64, height: int) -> Seq<Seq<char>> {
    Seq::new(
        height as nat,
        |r: int| Seq::new(cols.len(), |x: int| chart_cell(cols, scale, height, r, x)),
    )
}

/// The rows of a grid as sequences.
pub open spec fn grid_view(grid: Seq<Vec<char>>) -> Seq<Seq<char>> {
    Seq::new(grid.len(), |r: int| grid[r]@)
}

/// A level never leaves the chart.
pub proof fn lemma_level_in_range(value: u64, scale: u64, height: int)
    requires
        height >= 1,
    ensures
        0 <= chart_level(value, scale, height) <= height - 1,
        0 <= chart_row(value, scale, height) <= height - 1,
{
    let m = effective_scale(scale);
    let c = clamped_value(value, scale);
    let h = height - 1;
    let p = h * c;
    assert(0 <= p <= h * m) by (nonlinear_arith)
        requires
            0 <= c <= m,
            0 <= h,
            p == h * c,
    ;
    lemma_fundamental_div_mod(p, m);
    lemma_div_is_ordered(p, h * m, m);
    lemma_div_multiples_vanish(h, m);
    assert(0 <= p / m) by (nonlinear_arith)
        requires
            0 <= p,
            m > 0,
    ;
    if p / m == h {
        assert(m * (p / m) == h * m) by (nonlinear_arith)
            requires
                p / m == h,
        ;
    }
}

/// A value at or above the scale is drawn on the top row, zero on the
/// bottom row.
pub proof fn lemma_level_ends(value: u64, scale: u64, height: int)
    requires
        height >= 1,
    ensures
        value as int >= effective_scale(scale) ==> chart_row(value, scale, height) == 0,
        value == 0 ==> chart_row(value, scale, height) == height - 1,
{
    let m = effective_scale(scale);
    let h = height - 1;
    if value as int >= m {
        lemma_div_multiples_vanish(h, m);
        lemma_fundamental_div_mod(h * m, m);
        assert(m * ((h * m) / m) == h * m) by (nonlinear_arith)
            requires
                (h * m) / m == h,
        ;
    }
    if value == 0 {
        assert(h * 0 == 0);
        vstd::arithmetic::div_mod::lemma_small_mod(0, m as nat);
        vstd::arithmetic::div_mod::lemma_basic_div(0, m);
    }
}

/// The plot reads as one line: every column holds its marker on the row of
/// its value and nowhere else, and in every column after the first no row
/// from the previous column's row to this column's row is blank.
pub proof fn lemma_chart_is_unbroken(cols: Seq<u64>, scale: u64, height: int, r: int, x: int)
    requires
        height >= 1,
        0 <= x < cols.len(),
        0 <= r < height,
    ensures
        0 <= chart_row(cols[x], scale, height) < height,
        (chart_grid(cols, scale, height)[r][x] == MARKER) == (r == chart_row(
            cols[x],
            scale,
            height,
        )),
        x > 0 && row_between(
            r,
            chart_row(cols[x - 1], scale, height),
            chart_row(cols[x], scale, height),
        ) ==> chart_grid(cols, scale, height)[r][x] != BLANK,
{
    lemma_level_in_range(cols[x], scale, height);
}

/// Row, counted from the top, on which `value` is drawn.
pub fn row_of(value: u64, scale: u64, height: usize) -> (row: usize)
    requires
        height >= 1,
    ensures
        row == chart_row(value, scale, height as int),
        row < height,
{
    let m: u64 = if scale == 0 {
        MILLI
    } else {
        scale
    };
    let c: u64 = if value > m {
        m
    } else {
        value
    };
    let h: usize = height - 1;
    proof {
        lemma_level_in_range(value, scale, height as int);
        assert(h * c <= u64::MAX * u64::MAX) by (nonlinear_arith)
            requires
                0 <= h <= u64::MAX,
                0 <= c <= u64::MAX,
        ;
    }
    let p: u128 = (h as u128) * (c as u128);
    let q: u128 = p / (m as u128);
    let rem: u128 = p % (m as u128);
    let level: u128 = if 2 * rem >= m as u128 {
        q + 1
    } else {
        q
    };
    height - 1 - (level as usize)
}

/// Row of each column of the chart of a ring.
pub fn chart_rows(hist: &[u64], head: usize, width: usize, height: usize, scale: u64) -> (rows:
    Vec<usize>)
    requires
        height >= 1,
        width <= hist@.len(),
    ensures
        rows@.len() == width,
        forall|x: int|
            0 <= x < width ==> #[trigger] rows@[x] == chart_row(
                chart_columns(hist@, head as int, width as int)[x],
                scale,
                height as int,
            ),
{
    let mut rows: Vec<usize> = Vec::new();
    if width == 0 {
        return rows;
    }
    let first: usize = head % width;
    let mut x: usize = 0;
    while x < width
        invariant
            height >= 1,
            0 < width <= hist@.len(),
            first == head % width,
            x <= width,
            rows@.len() == x,
            forall|k: int|
                0 <= k < x ==> #[trigger] rows@[k] == chart_row(
                    chart_columns(hist@, head as int, width as int)[k],
                    scale,
                    height as int,
                ),
        decreases width - x,
    {
        let slot: usize = if x < width - first {
            first + x
        } else {
            x - (width - first)
        };
        proof {
            lemma_add_mod_noop(head as int, x as int, width as int);
            lemma_small_mod(x as nat, width as nat);
            crate::stats::lemma_mod_wrap(first + x, width as int);
        }
        let v: u64 = hist[slot];
        let row: usize = row_of(v, scale, height);
        rows.push(row);
        x = x + 1;
    }
    rows
}

/// The chart of a ring of `width` slots, as `height` rows of `width`
/// characters. Column `x` shows slot `(head + x) % width`, so the oldest
/// sample is at the left. A scale of zero counts as one unit; values above
/// the scale are drawn on the top row.
pub fn build_chart(hist: &[u64], head: usize, width: usize, height: usize, max: u64) -> (grid: Vec<
    Vec<char>,
>)
    requires
        height >= 1,
        width <= hist@.len(),
    ensures
        grid_view(grid@) == chart_grid(
            chart_columns(hist@, head as int, width as int),
            max,
            height as int,
        ),
        grid@.len() == height,
        forall|r: int| 0 <= r < height ==> (#[trigger] grid@[r])@.len() == width,
{
    let rows: Vec<usize> = chart_rows(hist, head, width, height, max);
    let ghost cols = chart_columns(hist@, head as int, width as int);
    let mut grid: Vec<Vec<char>> = Vec::new();
    let mut r: usize = 0;
    while r < height
        invariant
            r <= height,
            rows@.len() == width,
            cols.len() == width,
            forall|x: int|
                0 <= x < width ==> #[trigger] rows@[x] == chart_row(cols[x], max, height as int),
            grid@.len() == r,
            forall|i: int| 0 <= i < r ==> (#[trigger] grid@[i])@.len() == width,
            forall|i: int, x: int|
                0 <= i < r && 0 <= x < width ==> #[trigger] grid@[i]@[x] == chart_cell(
                    cols,
                    max,
                    height as int,
                    i,
                    x,
                ),
        decreases height - r,
    {
        let mut line: Vec<char> = Vec::new();
        let mut x: usize = 0;
        while x < width
            invariant
                x <= width,
                r < height,
                rows@.len() == width,
                cols.len() == width,
                forall|k: int|
                    0 <= k < width ==> #[trigger] rows@[k] == chart_row(
                        cols[k],
                        max,
                        height as int,
                    ),
                line@.len() == x,
                forall|k: int|
                    0 <= k < x ==> #[trigger] line@[k] == chart_cell(
                        cols,
                        max,
                        height as int,
                        r as int,
                        k,
                    ),
            decreases width - x,
        {
            let row: usize = rows[x];
            let cell: char = if r == row {
                MARKER
            } else if x > 0 {
                let prev: usize = rows[x - 1];
                if (prev <= r && r <= row) || (row <= r && r <= prev) {
                    CONNECTOR
                } else {
                    BLANK
                }
            } else {
                BLANK
            };
            line.push(cell);
            x = x + 1;
        }
        grid.push(line);
        r = r + 1;
    }
    proof {
        let g = grid_view(grid@);
        let want = chart_grid(cols, max, height as int);
        assert forall|i: int| 0 <= i < height implies #[trigger] g[i] == want[i] by {
            assert(g[i] == grid@[i]@);
            assert(g[i] =~= want[i]);
        }
        assert(g =~= want);
    }
    grid
}

} // verus!
