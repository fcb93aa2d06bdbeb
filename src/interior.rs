//! The cells inside the glass, and filling them from the top.

use vstd::prelude::*;
use crate::grid::{offset, lemma_offset_in_range};
use crate::layout::LayoutCell;
use crate::sums::{MAX_CELL_SAND, counts_bounded};

verus! {

/// How many walls stand in columns `0..x` of row `y`.
pub open spec fn walls_before(walls: Seq<LayoutCell>, width: int, y: int, x: int) -> int
    decreases x,
{
    if x <= 0 {
        0
    } else {
        walls_before(walls, width, y, x - 1) + if walls[offset(width, x - 1, y)] is Wall {
            1int
        } else {
            0int
        }
    }
}

/// A cell inside the glass: empty, with exactly one wall to its left in its row.
pub open spec fn is_interior(walls: Seq<LayoutCell>, width: int, x: int, y: int) -> bool {
    walls[offset(width, x, y)] is Empty && walls_before(walls, width, y, x) == 1
}

/// The inside cells among columns `0..n` of row `y`, left to right.
pub open spec fn interior_in_row(walls: Seq<LayoutCell>, width: int, y: int, n: int) -> Seq<
    (usize, usize),
>
    decreases n,
{
    if n <= 0 {
        Seq::empty()
    } else {
        let before = interior_in_row(walls, width, y, n - 1);
        if is_interior(walls, width, n - 1, y) {
            before.push(((n - 1) as usize, y as usize))
        } else {
            before
        }
    }
}

/// The inside cells of rows `0..m`, row by row.
pub open spec fn interior_positions(walls: Seq<LayoutCell>, width: int, m: int) -> Seq<
    (usize, usize),
>
    decreases m,
{
    if m <= 0 {
        Seq::empty()
    } else {
        interior_positions(walls, width, m - 1) + interior_in_row(walls, width, m - 1, width)
    }
}

pub open spec fn offset_of(width: int, p: (usize, usize)) -> int {
    offset(width, p.0 as int, p.1 as int)
}

proof fn lemma_interior_in_row(walls: Seq<LayoutCell>, width: int, y: int, n: int)
    requires
        0 <= n <= width,
        0 <= y,
        y <= usize::MAX,
        width <= usize::MAX,
    ensures
        ({
            let ps = interior_in_row(walls, width, y, n);
            &&& forall|i: int| 0 <= i < ps.len() ==> (#[trigger] ps[i]).1 == y && ps[i].0 < n
            &&& forall|i: int, j: int| 0 <= i < j < ps.len() ==> (#[trigger] ps[i]).0 < (#[trigger] ps[j]).0
        }),
    decreases n,
{
    if n > 0 {
        lemma_interior_in_row(walls, width, y, n - 1);
        let before = interior_in_row(walls, width, y, n - 1);
        if is_interior(walls, width, n - 1, y) {
            let ps = before.push(((n - 1) as usize, y as usize));
            assert forall|i: int| 0 <= i < before.len() implies ps[i] == before[i] by {}
            assert(ps[before.len() as int] == ((n - 1) as usize, y as usize));
        }
    }
}

/// The inside cells lie in the glass and come in row-major order, so no
/// cell comes twice.
pub proof fn lemma_interior_sorted(walls: Seq<LayoutCell>, width: int, m: int)
    requires
        0 < width <= usize::MAX,
        0 <= m <= usize::MAX,
    ensures
        ({
            let ps = interior_positions(walls, width, m);
            &&& forall|i: int| 0 <= i < ps.len() ==> (#[trigger] ps[i]).0 < width && ps[i].1 < m
            &&& forall|i: int, j: int|
                0 <= i < j < ps.len() ==> offset_of(width, #[trigger] ps[i]) < offset_of(
                    width,
                    #[trigger] ps[j],
                )
        }),
    decreases m,
{
    if m > 0 {
        lemma_interior_sorted(walls, width, m - 1);
        lemma_interior_in_row(walls, width, m - 1, width);
        let a = interior_positions(walls, width, m - 1);
        let b = interior_in_row(walls, width, m - 1, width);
        let ps = a + b;
        assert forall|i: int, j: int| 0 <= i < j < ps.len() implies offset_of(width, #[trigger] ps[i])
            < offset_of(width, #[trigger] ps[j]) by {
            if j < a.len() {
                assert(ps[i] == a[i] && ps[j] == a[j]);
            } else if i >= a.len() {
                assert(ps[i] == b[i - a.len()] && ps[j] == b[j - a.len()]);
            } else {
                let p = a[i];
                let q = b[j - a.len()];
                assert(ps[i] == p && ps[j] == q);
                assert(p.1 * width + p.0 < q.1 * width + q.0) by (nonlinear_arith)
                    requires
                        p.1 < q.1,
                        p.0 < width,
                        0 <= q.0,
                ;
            }
        }
        assert forall|i: int| 0 <= i < ps.len() implies (#[trigger] ps[i]).0 < width && ps[i].1 < m by {
            if i < a.len() {
                assert(ps[i] == a[i]);
            } else {
                assert(ps[i] == b[i - a.len()]);
            }
        }
    }
}

/// The room left in the first `k` of `ps` before any grain is added.
pub open spec fn room_before(sand: Seq<u8>, width: int, ps: Seq<(usize, usize)>, k: int) -> int
    decreases k,
{
    if k <= 0 {
        0
    } else {
        room_before(sand, width, ps, k - 1) + (MAX_CELL_SAND - sand[offset_of(width, ps[k - 1])])
    }
}

/// The grains that a fill with `budget` grains adds at `ps[k]`: the earlier
/// positions take what they have room for, and this one takes what is left,
/// up to its own room.
pub open spec fn added(sand: Seq<u8>, width: int, ps: Seq<(usize, usize)>, budget: int, k: int) -> int {
    let room = MAX_CELL_SAND - sand[offset_of(width, ps[k])];
    let left = budget - room_before(sand, width, ps, k);
    if left <= 0 {
        0
    } else if left < room {
        left
    } else {
        room
    }
}

/// The counts after the first `k` positions of `ps` have been filled.
pub open spec fn fill_upto(
    sand: Seq<u8>,
    width: int,
    ps: Seq<(usize, usize)>,
    budget: int,
    k: int,
) -> Seq<u8>
    decreases k,
{
    if k <= 0 {
        sand
    } else {
        let i = offset_of(width, ps[k - 1]);
        fill_upto(sand, width, ps, budget, k - 1).update(
            i,
            (sand[i] + added(sand, width, ps, budget, k - 1)) as u8,
        )
    }
}

/// The grains that filling `n` cells to a `numerator / denominator` share of
/// their capacity hands out, rounded down.
pub open spec fn fill_budget(n: int, numerator: int, denominator: int) -> int {
    n * (MAX_CELL_SAND as int) * numerator / denominator
}

/// Positions of a `width` by `height` glass that are distinct and in range.
pub open spec fn distinct_cells(ps: Seq<(usize, usize)>, width: int, height: int) -> bool {
    &&& forall|i: int| 0 <= i < ps.len() ==> (#[trigger] ps[i]).0 < width && ps[i].1 < height
    &&& forall|i: int, j: int|
        0 <= i < j < ps.len() ==> offset_of(width, #[trigger] ps[i]) < offset_of(width, #[trigger] ps[j])
}

/// After the first `k` positions are filled, each of them holds what it had
/// plus what it was given, and every other cell holds what it had.
pub proof fn lemma_fill_upto(
    sand: Seq<u8>,
    width: int,
    height: int,
    ps: Seq<(usize, usize)>,
    budget: int,
    k: int,
)
    requires
        counts_bounded(sand, width, height),
        distinct_cells(ps, width, height),
        0 <= k <= ps.len(),
    ensures
        ({
            let after = fill_upto(sand, width, ps, budget, k);
            &&& after.len() == sand.len()
            &&& forall|j: int|
                0 <= j < k ==> #[trigger] after[offset_of(width, ps[j])] == sand[offset_of(width, ps[j])]
                    + added(sand, width, ps, budget, j)
            &&& forall|i: int|
                0 <= i < sand.len() && (forall|j: int| 0 <= j < k ==> offset_of(width, #[trigger] ps[j]) != i)
                    ==> #[trigger] after[i] == sand[i]
        }),
    decreases k,
{
    if k > 0 {
        lemma_fill_upto(sand, width, height, ps, budget, k - 1);
        let p = ps[k - 1];
        lemma_offset_in_range(width, height, p.0 as int, p.1 as int);
        let before = fill_upto(sand, width, ps, budget, k - 1);
        let after = fill_upto(sand, width, ps, budget, k);
        assert forall|j: int| 0 <= j < k implies #[trigger] after[offset_of(width, ps[j])] == sand[offset_of(
            width,
            ps[j],
        )] + added(sand, width, ps, budget, j) by {
            lemma_offset_in_range(width, height, ps[j].0 as int, ps[j].1 as int);
            if j < k - 1 {
                assert(offset_of(width, ps[j]) < offset_of(width, ps[k - 1]));
            }
            assert(0 <= added(sand, width, ps, budget, j) <= MAX_CELL_SAND - sand[offset_of(width, ps[j])]);
        }
    }
}

/// Filling with no grains changes nothing.
pub proof fn lemma_fill_with_nothing(sand: Seq<u8>, width: int, height: int, ps: Seq<(usize, usize)>)
    requires
        counts_bounded(sand, width, height),
        distinct_cells(ps, width, height),
    ensures
        fill_upto(sand, width, ps, 0, ps.len() as int) == sand,
{
    lemma_room_before_grows(sand, width, height, ps, ps.len() as int);
    lemma_fill_upto(sand, width, height, ps, 0, ps.len() as int);
    let after = fill_upto(sand, width, ps, 0, ps.len() as int);
    assert forall|i: int| 0 <= i < sand.len() implies after[i] == sand[i] by {
        if exists|j: int| 0 <= j < ps.len() && offset_of(width, ps[j]) == i {
            let j = choose|j: int| 0 <= j < ps.len() && offset_of(width, ps[j]) == i;
            assert(after[offset_of(width, ps[j])] == sand[offset_of(width, ps[j])] + added(sand, width, ps, 0, j));
        }
    }
    assert(after =~= sand);
}

/// Filling `ps` with two grains for each of its cells fills every one of them.
pub proof fn lemma_fill_to_the_brim(sand: Seq<u8>, width: int, height: int, ps: Seq<(usize, usize)>)
    requires
        counts_bounded(sand, width, height),
        distinct_cells(ps, width, height),
    ensures
        forall|j: int|
            0 <= j < ps.len() ==> #[trigger] fill_upto(
                sand,
                width,
                ps,
                ps.len() * MAX_CELL_SAND,
                ps.len() as int,
            )[offset_of(width, ps[j])] == MAX_CELL_SAND,
{
    let budget = ps.len() * MAX_CELL_SAND;
    lemma_room_before_grows(sand, width, height, ps, ps.len() as int);
    lemma_fill_upto(sand, width, height, ps, budget, ps.len() as int);
    assert forall|j: int| 0 <= j < ps.len() implies #[trigger] fill_upto(
        sand,
        width,
        ps,
        budget,
        ps.len() as int,
    )[offset_of(width, ps[j])] == MAX_CELL_SAND by {
        assert(room_before(sand, width, ps, j) <= MAX_CELL_SAND * j);
        assert(room_before(sand, width, ps, j) + MAX_CELL_SAND <= budget) by (nonlinear_arith)
            requires
                room_before(sand, width, ps, j) <= MAX_CELL_SAND * j,
                j < ps.len(),
                budget == ps.len() * MAX_CELL_SAND,
        ;
    }
}

/// The room before position `k` is at least zero and at most two per position.
pub proof fn lemma_room_before_grows(
    sand: Seq<u8>,
    width: int,
    height: int,
    ps: Seq<(usize, usize)>,
    k: int,
)
    requires
        counts_bounded(sand, width, height),
        distinct_cells(ps, width, height),
        0 <= k <= ps.len(),
    ensures
        forall|j: int| 0 <= j <= k ==> 0 <= #[trigger] room_before(sand, width, ps, j) <= MAX_CELL_SAND * j,
    decreases k,
{
    if k > 0 {
        lemma_room_before_grows(sand, width, height, ps, k - 1);
        let p = ps[k - 1];
        lemma_offset_in_range(width, height, p.0 as int, p.1 as int);
        assert(sand[offset_of(width, p)] <= MAX_CELL_SAND);
        assert(0 <= room_before(sand, width, ps, k - 1) <= MAX_CELL_SAND * (k - 1));
        assert(room_before(sand, width, ps, k) == room_before(sand, width, ps, k - 1) + (MAX_CELL_SAND
            - sand[offset_of(width, p)]));
    }
}

} // verus!
