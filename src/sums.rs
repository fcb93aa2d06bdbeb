//! Sums of grain counts over rectangles of a row-major grid.

use vstd::prelude::*;
use crate::grid::{offset, lemma_offset_in_range, lemma_offset_injective};

verus! {

/// The most grains one cell can hold.
pub const MAX_CELL_SAND: u8 = 2;

/// Every count of a `width` by `height` store is at most `MAX_CELL_SAND`.
pub open spec fn counts_bounded(sand: Seq<u8>, width: int, height: int) -> bool {
    &&& sand.len() == width * height
    &&& forall|i: int| 0 <= i < sand.len() ==> #[trigger] sand[i] <= MAX_CELL_SAND
}

/// The grains in columns `x0..x1` of row `y`.
pub open spec fn row_sum(sand: Seq<u8>, width: int, y: int, x0: int, x1: int) -> int
    decreases x1 - x0,
{
    if x1 <= x0 {
        0
    } else {
        row_sum(sand, width, y, x0, x1 - 1) + sand[offset(width, x1 - 1, y)]
    }
}

/// The grains in columns `x0..x1` of rows `y0..y1`.
pub open spec fn rect_sum(sand: Seq<u8>, width: int, x0: int, x1: int, y0: int, y1: int) -> int
    decreases y1 - y0,
{
    if y1 <= y0 {
        0
    } else {
        rect_sum(sand, width, x0, x1, y0, y1 - 1) + row_sum(sand, width, y1 - 1, x0, x1)
    }
}

pub proof fn lemma_row_sum_bound(sand: Seq<u8>, width: int, height: int, y: int, x0: int, x1: int)
    requires
        counts_bounded(sand, width, height),
        0 <= y < height,
        0 <= x0 <= x1 <= width,
    ensures
        0 <= row_sum(sand, width, y, x0, x1) <= 2 * (x1 - x0),
    decreases x1 - x0,
{
    if x0 < x1 {
        lemma_row_sum_bound(sand, width, height, y, x0, x1 - 1);
        lemma_offset_in_range(width, height, x1 - 1, y);
    }
}

pub proof fn lemma_rect_sum_bound(
    sand: Seq<u8>,
    width: int,
    height: int,
    x0: int,
    x1: int,
    y0: int,
    y1: int,
)
    requires
        counts_bounded(sand, width, height),
        0 <= x0 <= x1 <= width,
        0 <= y0 <= y1 <= height,
    ensures
        0 <= rect_sum(sand, width, x0, x1, y0, y1) <= 2 * (x1 - x0) * (y1 - y0),
        rect_sum(sand, width, x0, x1, y0, y1) <= 2 * width * height,
    decreases y1 - y0,
{
    if y0 < y1 {
        lemma_rect_sum_bound(sand, width, height, x0, x1, y0, y1 - 1);
        lemma_row_sum_bound(sand, width, height, y1 - 1, x0, x1);
        assert(2 * (x1 - x0) * (y1 - 1 - y0) + 2 * (x1 - x0) == 2 * (x1 - x0) * (y1 - y0))
            by (nonlinear_arith);
    }
    assert(2 * (x1 - x0) * (y1 - y0) <= 2 * width * height) by (nonlinear_arith)
        requires
            0 <= x0 <= x1 <= width,
            0 <= y0 <= y1 <= height,
    ;
}

/// Adjacent bands of rows add up.
pub proof fn lemma_rect_sum_split(
    sand: Seq<u8>,
    width: int,
    x0: int,
    x1: int,
    y0: int,
    y1: int,
    y2: int,
)
    requires
        y0 <= y1 <= y2,
    ensures
        rect_sum(sand, width, x0, x1, y0, y2) == rect_sum(sand, width, x0, x1, y0, y1) + rect_sum(
            sand,
            width,
            x0,
            x1,
            y1,
            y2,
        ),
    decreases y2 - y1,
{
    if y1 < y2 {
        lemma_rect_sum_split(sand, width, x0, x1, y0, y1, y2 - 1);
    }
}

/// Changing one cell changes a row sum by the change of that cell, if the row
/// sum covers it.
pub proof fn lemma_row_sum_update(
    sand: Seq<u8>,
    width: int,
    height: int,
    y: int,
    x0: int,
    x1: int,
    px: int,
    py: int,
    v: u8,
)
    requires
        sand.len() == width * height,
        0 <= y < height,
        0 <= x0 <= x1 <= width,
        0 <= px < width,
        0 <= py < height,
    ensures
        row_sum(sand.update(offset(width, px, py), v), width, y, x0, x1) == row_sum(
            sand,
            width,
            y,
            x0,
            x1,
        ) + if y == py && x0 <= px < x1 {
            v - sand[offset(width, px, py)]
        } else {
            0
        },
    decreases x1 - x0,
{
    if x0 < x1 {
        lemma_row_sum_update(sand, width, height, y, x0, x1 - 1, px, py, v);
        lemma_offset_in_range(width, height, x1 - 1, y);
        lemma_offset_in_range(width, height, px, py);
        if offset(width, x1 - 1, y) == offset(width, px, py) {
            lemma_offset_injective(width, x1 - 1, y, px, py);
        }
    }
}

/// Changing one cell changes a rectangle sum by the change of that cell, if the
/// rectangle covers it.
pub proof fn lemma_rect_sum_update(
    sand: Seq<u8>,
    width: int,
    height: int,
    x0: int,
    x1: int,
    y0: int,
    y1: int,
    px: int,
    py: int,
    v: u8,
)
    requires
        sand.len() == width * height,
        0 <= x0 <= x1 <= width,
        0 <= y0 <= y1 <= height,
        0 <= px < width,
        0 <= py < height,
    ensures
        rect_sum(sand.update(offset(width, px, py), v), width, x0, x1, y0, y1) == rect_sum(
            sand,
            width,
            x0,
            x1,
            y0,
            y1,
        ) + if y0 <= py < y1 && x0 <= px < x1 {
            v - sand[offset(width, px, py)]
        } else {
            0
        },
    decreases y1 - y0,
{
    if y0 < y1 {
        lemma_rect_sum_update(sand, width, height, x0, x1, y0, y1 - 1, px, py, v);
        lemma_row_sum_update(sand, width, height, y1 - 1, x0, x1, px, py, v);
    }
}

/// A rectangle with no columns, or no rows, holds no grains.
pub proof fn lemma_rect_sum_no_columns(sand: Seq<u8>, width: int, x0: int, x1: int, y0: int, y1: int)
    requires
        x1 <= x0 || y1 <= y0,
    ensures
        rect_sum(sand, width, x0, x1, y0, y1) == 0,
    decreases y1 - y0,
{
    if y0 < y1 {
        lemma_rect_sum_no_columns(sand, width, x0, x1, y0, y1 - 1);
    }
}

} // verus!
