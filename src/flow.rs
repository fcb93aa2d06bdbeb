//! The flow rule: which grains move in one tick, and where to.

use vstd::prelude::*;
use crate::grid::{offset, lemma_offset_in_range, lemma_offset_injective};
use crate::layout::LayoutCell;
use crate::sums::{MAX_CELL_SAND, counts_bounded, rect_sum, lemma_rect_sum_update};
use crate::hourglass::solid;

verus! {

/// The one direction tried for a grain in a tick.
#[derive(Clone, Copy, PartialEq, Eq, Structural)]
pub enum MoveDirection {
    Down,
    Right,
    Left,
}

/// The position a grain at `(x, y)` would move to.
pub open spec fn target(x: int, y: int, dir: MoveDirection) -> (int, int) {
    match dir {
        MoveDirection::Down => (x, y + 1),
        MoveDirection::Right => (x + 1, y),
        MoveDirection::Left => (x - 1, y),
    }
}

/// Whether a grain at `(x, y)` may move in `dir`.
///
/// A grain falls when the cell below is open. It moves sideways only when it
/// rests on something solid and the side cell is open, and then only to level
/// a stack (it leaves more than the side cell holds) or to spill over an edge
/// (the cell below the side cell is open). The rule is the same however full
/// a bulb is: a bulb packed to the brim simply has no grain that may move.
pub open spec fn can_flow(
    walls: Seq<LayoutCell>,
    sand: Seq<u8>,
    width: int,
    height: int,
    x: int,
    y: int,
    dir: MoveDirection,
) -> bool {
    let here = sand[offset(width, x, y)];
    let solid_below = solid(walls, sand, width, height, x, y + 1);
    let side = target(x, y, dir).0;
    &&& here >= 1
    &&& match dir {
        MoveDirection::Down => y < height - 1 && !solid_below,
        _ => solid_below && !solid(walls, sand, width, height, side, y) && ((here > 1 && here - 1
            > sand[offset(width, side, y)]) || !solid(walls, sand, width, height, side, y + 1)),
    }
}

/// Whether the grain tried at `(x, y)` in `dir` moves: it may, and it is not
/// a fall through a pinched neck.
pub open spec fn moves(
    walls: Seq<LayoutCell>,
    sand: Seq<u8>,
    width: int,
    height: int,
    pinched: bool,
    x: int,
    y: int,
    dir: MoveDirection,
) -> bool {
    !(pinched && y == height / 2 - 1 && dir == MoveDirection::Down) && can_flow(
        walls,
        sand,
        width,
        height,
        x,
        y,
        dir,
    )
}

/// The counts after trying to move one grain from `(x, y)` in `dir`.
pub open spec fn step(
    walls: Seq<LayoutCell>,
    sand: Seq<u8>,
    width: int,
    height: int,
    pinched: bool,
    x: int,
    y: int,
    dir: MoveDirection,
) -> Seq<u8> {
    if moves(walls, sand, width, height, pinched, x, y, dir) {
        let t = target(x, y, dir);
        let from = offset(width, x, y);
        let to = offset(width, t.0, t.1);
        let lifted = sand.update(from, (sand[from] - 1) as u8);
        lifted.update(to, (lifted[to] + 1) as u8)
    } else {
        sand
    }
}

/// Tries columns `0..n` of row `y`, left to right, the grain at `(x, y)` in
/// direction `dirs[offset(width, x, y)]`: the counts after, and how many grains moved.
pub open spec fn row_pass(
    walls: Seq<LayoutCell>,
    sand: Seq<u8>,
    width: int,
    height: int,
    pinched: bool,
    dirs: Seq<MoveDirection>,
    y: int,
    n: int,
) -> (Seq<u8>, int)
    decreases n,
{
    if n <= 0 {
        (sand, 0)
    } else {
        let (before, moved) = row_pass(walls, sand, width, height, pinched, dirs, y, n - 1);
        let dir = dirs[offset(width, n - 1, y)];
        (
            step(walls, before, width, height, pinched, n - 1, y, dir),
            moved + if moves(walls, before, width, height, pinched, n - 1, y, dir) {
                1int
            } else {
                0int
            },
        )
    }
}

/// Passes over the bottom `k` rows, from the bottom row up: the counts after,
/// and how many grains moved. `tick(.., height)` is one whole tick.
pub open spec fn tick(
    walls: Seq<LayoutCell>,
    sand: Seq<u8>,
    width: int,
    height: int,
    pinched: bool,
    dirs: Seq<MoveDirection>,
    k: int,
) -> (Seq<u8>, int)
    decreases k,
{
    if k <= 0 {
        (sand, 0)
    } else {
        let (before, moved) = tick(walls, sand, width, height, pinched, dirs, k - 1);
        let (after, more) = row_pass(walls, before, width, height, pinched, dirs, height - k, width);
        (after, moved + more)
    }
}

/// No grain may move in any direction.
pub open spec fn settled(
    walls: Seq<LayoutCell>,
    sand: Seq<u8>,
    width: int,
    height: int,
    pinched: bool,
) -> bool {
    forall|x: int, y: int, dir: MoveDirection|
        0 <= x < width && 0 <= y < height ==> !#[trigger] moves(
            walls,
            sand,
            width,
            height,
            pinched,
            x,
            y,
            dir,
        )
}

/// The shape of a glass that the lemmas below work in.
pub open spec fn shaped(walls: Seq<LayoutCell>, sand: Seq<u8>, width: int, height: int) -> bool {
    &&& width > 0
    &&& height > 0
    &&& walls.len() == width * height
    &&& counts_bounded(sand, width, height)
}

/// One step keeps every count in range, and moves a grain from an in-range cell
/// to another in-range cell that had room for it.
pub proof fn lemma_step(
    walls: Seq<LayoutCell>,
    sand: Seq<u8>,
    width: int,
    height: int,
    pinched: bool,
    x: int,
    y: int,
    dir: MoveDirection,
)
    requires
        shaped(walls, sand, width, height),
        0 <= x < width,
        0 <= y < height,
    ensures
        shaped(walls, step(walls, sand, width, height, pinched, x, y, dir), width, height),
        moves(walls, sand, width, height, pinched, x, y, dir) ==> {
            let t = target(x, y, dir);
            &&& 0 <= t.0 < width
            &&& 0 <= t.1 < height
            &&& offset(width, t.0, t.1) != offset(width, x, y)
            &&& sand[offset(width, x, y)] >= 1
            &&& sand[offset(width, t.0, t.1)] < MAX_CELL_SAND
        },
{
    lemma_offset_in_range(width, height, x, y);
    if moves(walls, sand, width, height, pinched, x, y, dir) {
        let t = target(x, y, dir);
        lemma_offset_in_range(width, height, t.0, t.1);
        if offset(width, t.0, t.1) == offset(width, x, y) {
            lemma_offset_injective(width, t.0, t.1, x, y);
        }
        let after = step(walls, sand, width, height, pinched, x, y, dir);
        assert forall|i: int| 0 <= i < after.len() implies #[trigger] after[i] <= MAX_CELL_SAND by {
            assert(sand[i] <= MAX_CELL_SAND);
        }
    }
}

/// A step changes the sum over any rectangle only by the grain that leaves it
/// or enters it.
pub proof fn lemma_step_sum(
    walls: Seq<LayoutCell>,
    sand: Seq<u8>,
    width: int,
    height: int,
    pinched: bool,
    x: int,
    y: int,
    dir: MoveDirection,
    x0: int,
    x1: int,
    y0: int,
    y1: int,
)
    requires
        shaped(walls, sand, width, height),
        0 <= x < width,
        0 <= y < height,
        0 <= x0 <= x1 <= width,
        0 <= y0 <= y1 <= height,
    ensures
        ({
            let t = target(x, y, dir);
            let inside_from = x0 <= x < x1 && y0 <= y < y1;
            let inside_to = x0 <= t.0 < x1 && y0 <= t.1 < y1;
            rect_sum(step(walls, sand, width, height, pinched, x, y, dir), width, x0, x1, y0, y1)
                == rect_sum(sand, width, x0, x1, y0, y1) + if moves(
                walls,
                sand,
                width,
                height,
                pinched,
                x,
                y,
                dir,
            ) {
                (if inside_to {
                    1int
                } else {
                    0int
                }) - (if inside_from {
                    1int
                } else {
                    0int
                })
            } else {
                0int
            }
        }),
{
    lemma_step(walls, sand, width, height, pinched, x, y, dir);
    lemma_offset_in_range(width, height, x, y);
    if moves(walls, sand, width, height, pinched, x, y, dir) {
        let t = target(x, y, dir);
        let from = offset(width, x, y);
        let to = offset(width, t.0, t.1);
        assert(0 <= t.0 < width && 0 <= t.1 < height);
        assert(to != from);
        lemma_offset_in_range(width, height, t.0, t.1);
        let lifted = sand.update(from, (sand[from] - 1) as u8);
        assert(lifted[to] == sand[to]);
        assert(step(walls, sand, width, height, pinched, x, y, dir) == lifted.update(to, (lifted[to] + 1) as u8));
        lemma_rect_sum_update(sand, width, height, x0, x1, y0, y1, x, y, (sand[from] - 1) as u8);
        lemma_rect_sum_update(
            lifted,
            width,
            height,
            x0,
            x1,
            y0,
            y1,
            t.0,
            t.1,
            (lifted[offset(width, t.0, t.1)] + 1) as u8,
        );
    }
}

/// Whether no grain crosses the row boundary `b`: the rim of the glass, or
/// the top of the middle row when the neck is pinched.
pub open spec fn sealed_boundary(height: int, pinched: bool, b: int) -> bool {
    b == 0 || b == height || (pinched && b == height / 2)
}

/// A pass over part of a row keeps the counts in range, keeps the grains in a
/// band of rows between sealed boundaries, and moves at most one grain per cell.
pub proof fn lemma_row_pass(
    walls: Seq<LayoutCell>,
    sand: Seq<u8>,
    width: int,
    height: int,
    pinched: bool,
    dirs: Seq<MoveDirection>,
    y: int,
    n: int,
    b0: int,
    b1: int,
)
    requires
        shaped(walls, sand, width, height),
        0 <= y < height,
        0 <= n <= width,
        0 <= b0 <= b1 <= height,
        sealed_boundary(height, pinched, b0),
        sealed_boundary(height, pinched, b1),
    ensures
        ({
            let (after, moved) = row_pass(walls, sand, width, height, pinched, dirs, y, n);
            &&& shaped(walls, after, width, height)
            &&& rect_sum(after, width, 0, width, b0, b1) == rect_sum(sand, width, 0, width, b0, b1)
            &&& 0 <= moved <= n
        }),
    decreases n,
{
    if n > 0 {
        lemma_row_pass(walls, sand, width, height, pinched, dirs, y, n - 1, b0, b1);
        let (before, moved) = row_pass(walls, sand, width, height, pinched, dirs, y, n - 1);
        let dir = dirs[offset(width, n - 1, y)];
        lemma_step(walls, before, width, height, pinched, n - 1, y, dir);
        lemma_step_sum(walls, before, width, height, pinched, n - 1, y, dir, 0, width, b0, b1);
    }
}

/// A pass over the bottom `k` rows does the same, and moves at most one grain
/// per cell.
pub proof fn lemma_tick_band(
    walls: Seq<LayoutCell>,
    sand: Seq<u8>,
    width: int,
    height: int,
    pinched: bool,
    dirs: Seq<MoveDirection>,
    k: int,
    b0: int,
    b1: int,
)
    requires
        shaped(walls, sand, width, height),
        0 <= k <= height,
        0 <= b0 <= b1 <= height,
        sealed_boundary(height, pinched, b0),
        sealed_boundary(height, pinched, b1),
    ensures
        ({
            let (after, moved) = tick(walls, sand, width, height, pinched, dirs, k);
            &&& shaped(walls, after, width, height)
            &&& rect_sum(after, width, 0, width, b0, b1) == rect_sum(sand, width, 0, width, b0, b1)
            &&& 0 <= moved <= k * width
        }),
    decreases k,
{
    if k > 0 {
        lemma_tick_band(walls, sand, width, height, pinched, dirs, k - 1, b0, b1);
        let (before, moved) = tick(walls, sand, width, height, pinched, dirs, k - 1);
        lemma_row_pass(walls, before, width, height, pinched, dirs, height - k, width, b0, b1);
        assert((k - 1) * width + width == k * width) by (nonlinear_arith);
    }
}

/// In a glass where no grain may move, a pass over part of a row changes nothing.
pub proof fn lemma_settled_row_pass(
    walls: Seq<LayoutCell>,
    sand: Seq<u8>,
    width: int,
    height: int,
    pinched: bool,
    dirs: Seq<MoveDirection>,
    y: int,
    n: int,
)
    requires
        settled(walls, sand, width, height, pinched),
        0 <= y < height,
        0 <= n <= width,
    ensures
        row_pass(walls, sand, width, height, pinched, dirs, y, n) == (sand, 0int),
    decreases n,
{
    if n > 0 {
        lemma_settled_row_pass(walls, sand, width, height, pinched, dirs, y, n - 1);
        let dir = dirs[offset(width, n - 1, y)];
        assert(!moves(walls, sand, width, height, pinched, n - 1, y, dir));
    }
}

/// In a glass where no grain may move, a pass over the bottom `k` rows changes
/// nothing.
pub proof fn lemma_settled_tick(
    walls: Seq<LayoutCell>,
    sand: Seq<u8>,
    width: int,
    height: int,
    pinched: bool,
    dirs: Seq<MoveDirection>,
    k: int,
)
    requires
        settled(walls, sand, width, height, pinched),
        0 <= k <= height,
        width >= 0,
    ensures
        tick(walls, sand, width, height, pinched, dirs, k) == (sand, 0int),
    decreases k,
{
    if k > 0 {
        lemma_settled_tick(walls, sand, width, height, pinched, dirs, k - 1);
        lemma_settled_row_pass(walls, sand, width, height, pinched, dirs, height - k, width);
    }
}

} // verus!
