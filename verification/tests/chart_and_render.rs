use stress_all::chart::{build_chart, chart_rows, row_of};
use stress_all::render::{format_rate, render_chart};

fn rows(grid: &[Vec<char>]) -> Vec<String> {
    grid.iter().map(|r| r.iter().collect()).collect()
}

fn lines(v: Vec<Vec<u8>>) -> Vec<String> {
    v.into_iter().map(|b| String::from_utf8(b).unwrap()).collect()
}

#[test]
fn rows_for_values() {
    assert_eq!(row_of(0, 100_000, 5), 4);
    assert_eq!(row_of(50_000, 100_000, 5), 2);
    assert_eq!(row_of(100_000, 100_000, 5), 0);
    assert_eq!(row_of(25_000, 100_000, 5), 3);
    assert_eq!(row_of(7, 100_000, 1), 0);
}

#[test]
fn rows_round_to_the_nearest_halves_up() {
    assert_eq!(row_of(50_000, 100_000, 4), 1);
    assert_eq!(row_of(16_666, 100_000, 4), 3);
    assert_eq!(row_of(16_667, 100_000, 4), 2);
    assert_eq!(row_of(12_499, 100_000, 5), 4);
    assert_eq!(row_of(12_500, 100_000, 5), 3);
}

#[test]
fn values_above_the_scale_are_drawn_at_the_top() {
    assert_eq!(row_of(250_000, 100_000, 6), 0);
    assert_eq!(row_of(u64::MAX, 1, 12), 0);
    assert_eq!(row_of(u64::MAX, u64::MAX, 12), 0);
}

#[test]
fn a_scale_of_zero_counts_as_one_unit() {
    assert_eq!(row_of(1000, 0, 5), 0);
    assert_eq!(row_of(500, 0, 5), 2);
    assert_eq!(row_of(0, 0, 5), 4);
}

#[test]
fn chart_with_connectors() {
    let hist = [0u64, 50_000, 100_000, 100_000];
    let grid = build_chart(&hist, 0, 4, 5, 100_000);
    assert_eq!(rows(&grid), ["  **", "  | ", " *| ", " |  ", "*|  "]);
}

#[test]
fn chart_starts_at_the_head() {
    let hist = [0u64, 50_000, 100_000, 100_000];
    assert_eq!(chart_rows(&hist, 1, 4, 5, 100_000), vec![2, 0, 0, 4]);
    let grid = build_chart(&hist, 1, 4, 5, 100_000);
    assert_eq!(rows(&grid), [" **|", " | |", "*| |", "   |", "   *"]);
    // A head beyond the width wraps around.
    assert_eq!(rows(&build_chart(&hist, 5, 4, 5, 100_000)), rows(&grid));
}

#[test]
fn chart_of_an_unwarmed_ring_is_flat_at_the_bottom() {
    let hist = [0u64; 6];
    let grid = build_chart(&hist, 0, 6, 4, 100_000);
    assert_eq!(rows(&grid), ["      ", "      ", "      ", "******"]);
}

#[test]
fn chart_without_columns() {
    let hist: [u64; 0] = [];
    let grid = build_chart(&hist, 0, 0, 3, 1);
    assert_eq!(grid.len(), 3);
    assert!(grid.iter().all(|r| r.is_empty()));
}

#[test]
fn rates_are_scaled() {
    assert_eq!(format_rate(1_500_000, "ops/s"), b"1.50Kops/s");
    assert_eq!(format_rate(0, "ops/s"), b"0.00ops/s");
    assert_eq!(format_rate(999, "x"), b"1.00x");
    assert_eq!(format_rate(12_340, "IOPS"), b"12.34IOPS");
    assert_eq!(format_rate(999_999, ""), b"1000.00");
    assert_eq!(format_rate(1_000_000, ""), b"1.00K");
    assert_eq!(format_rate(2_500_000_000, ""), b"2.50M");
    assert_eq!(format_rate(999_999_999_999, ""), b"1000.00M");
    assert_eq!(format_rate(1_000_000_000_000, ""), b"1.00G");
    assert_eq!(format_rate(u64::MAX, ""), b"18446744.07G");
}

#[test]
fn chart_block() {
    let hist = [0u64, 50_000, 100_000, 100_000];
    let block = lines(render_chart("CPU", "%", 42_500, &hist, 0, 4, 100_000, 4, 5));
    assert_eq!(
        block,
        [
            "CPU   42.5% (min    0.0 avg   62.5 max  100.0)",
            "   100|  **",
            "      |  | ",
            "    50| *| ",
            "      | |  ",
            "     0|*|  ",
            "      +----",
        ]
    );
}

#[test]
fn chart_block_of_an_empty_window() {
    let hist = [0u64; 3];
    let block = lines(render_chart("DSK", "MB/s", 0, &hist, 0, 0, 0, 3, 2));
    assert_eq!(
        block,
        [
            "DSK    0.0MB/s (min    0.0 avg    0.0 max    0.0)",
            "     1|   ",
            "     0|***",
            "      +---",
        ]
    );
}

#[test]
fn chart_block_statistics_cover_the_filled_part_only() {
    // Two samples so far in a ring of four: slots 0 and 1, head at 2.
    let hist = [30_000u64, 10_000, 0, 0];
    let block = lines(render_chart("MEM", "%", 10_000, &hist, 2, 2, 100_000, 4, 4));
    assert_eq!(block[0], "MEM   10.0% (min   10.0 avg   20.0 max   30.0)");
    assert_eq!(block.len(), 6);
    assert_eq!(block[1], "   100|    ");
    assert_eq!(block[2], "      |    ");
    assert_eq!(block[3], "    33|  *|");
    assert_eq!(block[4], "     0|**|*");
    assert_eq!(block[5], "      +----");
}
