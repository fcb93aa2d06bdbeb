//! What holds of every glass, over the models that the operations' contracts use.

use vstd::prelude::*;
use crate::hourglass::Hourglass;
use crate::layout::LayoutCell;
use crate::flow::{MoveDirection, settled, shaped, tick, lemma_tick_band};
use crate::sums::{MAX_CELL_SAND, counts_bounded, rect_sum, lemma_rect_sum_split};
use crate::interior::{
    fill_budget,
    offset_of,
    lemma_interior_sorted,
    lemma_fill_with_nothing,
    lemma_fill_to_the_brim,
};

verus! {

/// A tick neither makes nor destroys grains, and leaves every cell with at
/// most `MAX_CELL_SAND` grains.
pub proof fn lemma_tick_keeps_grains(glass: &Hourglass, dirs: Seq<MoveDirection>)
    requires
        glass.inv(),
    ensures
        counts_bounded(glass.ticked(dirs).0, glass.spec_width() as int, glass.spec_height() as int),
        rect_sum(
            glass.ticked(dirs).0,
            glass.spec_width() as int,
            0,
            glass.spec_width() as int,
            0,
            glass.spec_height() as int,
        ) == glass.total_sand(),
{
    let h = glass.spec_height() as int;
    lemma_tick_band(
        glass.walls(),
        glass.sand(),
        glass.spec_width() as int,
        h,
        glass.is_pinched(),
        dirs,
        h,
        0,
        h,
    );
}

/// The counts after a run of ticks on a glass with outline `walls`, each tick
/// with its own pinch and its own directions.
pub open spec fn run(
    walls: Seq<LayoutCell>,
    sand: Seq<u8>,
    width: int,
    height: int,
    ticks: Seq<(bool, Seq<MoveDirection>)>,
) -> Seq<u8>
    decreases ticks.len(),
{
    if ticks.len() == 0 {
        sand
    } else {
        let before = run(walls, sand, width, height, ticks.drop_last());
        tick(walls, before, width, height, ticks.last().0, ticks.last().1, height).0
    }
}

/// Over any run of ticks, pinched or not, no grain is made or destroyed and
/// every cell keeps at most `MAX_CELL_SAND` grains.
pub proof fn lemma_run_keeps_grains(glass: &Hourglass, ticks: Seq<(bool, Seq<MoveDirection>)>)
    requires
        glass.inv(),
    ensures
        counts_bounded(
            run(glass.walls(), glass.sand(), glass.spec_width() as int, glass.spec_height() as int, ticks),
            glass.spec_width() as int,
            glass.spec_height() as int,
        ),
        rect_sum(
            run(glass.walls(), glass.sand(), glass.spec_width() as int, glass.spec_height() as int, ticks),
            glass.spec_width() as int,
            0,
            glass.spec_width() as int,
            0,
            glass.spec_height() as int,
        ) == glass.total_sand(),
    decreases ticks.len(),
{
    let w = glass.spec_width() as int;
    let h = glass.spec_height() as int;
    if ticks.len() > 0 {
        lemma_run_keeps_grains(glass, ticks.drop_last());
        let before = run(glass.walls(), glass.sand(), w, h, ticks.drop_last());
        assert(shaped(glass.walls(), before, w, h));
        lemma_tick_band(glass.walls(), before, w, h, ticks.last().0, ticks.last().1, h, 0, h);
    }
}

/// While the neck is pinched, a tick moves no grain from above the middle row
/// to the middle row or below it: both halves keep their grains.
pub proof fn lemma_pinched_tick_keeps_halves(glass: &Hourglass, dirs: Seq<MoveDirection>)
    requires
        glass.inv(),
        glass.is_pinched(),
    ensures
        rect_sum(
            glass.ticked(dirs).0,
            glass.spec_width() as int,
            0,
            glass.spec_width() as int,
            0,
            glass.spec_height() as int / 2,
        ) == glass.top_sand(),
        rect_sum(
            glass.ticked(dirs).0,
            glass.spec_width() as int,
            0,
            glass.spec_width() as int,
            glass.spec_height() as int / 2,
            glass.spec_height() as int,
        ) == glass.bottom_sand(),
{
    let w = glass.spec_width() as int;
    let h = glass.spec_height() as int;
    lemma_tick_band(glass.walls(), glass.sand(), w, h, true, dirs, h, 0, h / 2);
    lemma_tick_band(glass.walls(), glass.sand(), w, h, true, dirs, h, h / 2, h);
}

/// In a glass where no grain may move, a tick moves nothing, whatever the
/// directions drawn.
pub proof fn lemma_settled_tick_moves_nothing(glass: &Hourglass, dirs: Seq<MoveDirection>)
    requires
        glass.inv(),
        settled(
            glass.walls(),
            glass.sand(),
            glass.spec_width() as int,
            glass.spec_height() as int,
            glass.is_pinched(),
        ),
    ensures
        glass.ticked(dirs) == (glass.sand(), 0int),
{
    crate::flow::lemma_settled_tick(
        glass.walls(),
        glass.sand(),
        glass.spec_width() as int,
        glass.spec_height() as int,
        glass.is_pinched(),
        dirs,
        glass.spec_height() as int,
    );
}

/// Turning a glass upside down twice gives back its outline and grains.
pub proof fn lemma_flip_twice_restores(before: &Hourglass, once: &Hourglass, twice: &Hourglass)
    requires
        once.is_flip_of(before),
        twice.is_flip_of(once),
    ensures
        twice.spec_width() == before.spec_width(),
        twice.spec_height() == before.spec_height(),
        twice.is_pinched() == before.is_pinched(),
        twice.walls() == before.walls(),
        twice.sand() == before.sand(),
{
    assert(twice.walls() =~= before.walls());
    assert(twice.sand() =~= before.sand());
}

/// Filling with a share of zero adds no grain anywhere.
pub proof fn lemma_fill_nothing(glass: &Hourglass, denominator: int)
    requires
        glass.inv(),
        0 < denominator,
    ensures
        glass.filled(0, denominator) == glass.sand(),
{
    let w = glass.spec_width() as int;
    let h = glass.spec_height() as int;
    assert(w <= 2 * w * h && h <= 2 * w * h) by (nonlinear_arith)
        requires
            w >= 1,
            h >= 1,
    ;
    lemma_interior_sorted(glass.walls(), w, h);
    let ps = glass.interior();
    assert(fill_budget(ps.len() as int, 0, denominator) == 0);
    lemma_fill_with_nothing(glass.sand(), w, h, ps);
}

/// Filling with a share of one brings every inside cell to `MAX_CELL_SAND`.
pub proof fn lemma_fill_everything(glass: &Hourglass, denominator: int)
    requires
        glass.inv(),
        0 < denominator,
    ensures
        forall|k: int|
            0 <= k < glass.interior().len() ==> #[trigger] glass.filled(denominator, denominator)[offset_of(
                glass.spec_width() as int,
                glass.interior()[k],
            )] == MAX_CELL_SAND,
{
    let w = glass.spec_width() as int;
    let h = glass.spec_height() as int;
    assert(w <= 2 * w * h && h <= 2 * w * h) by (nonlinear_arith)
        requires
            w >= 1,
            h >= 1,
    ;
    lemma_interior_sorted(glass.walls(), w, h);
    let ps = glass.interior();
    let n = ps.len() as int;
    assert(n * 2 * denominator / denominator == n * 2) by (nonlinear_arith)
        requires
            denominator > 0,
    ;
    assert(fill_budget(n, denominator, denominator) == n * MAX_CELL_SAND);
    lemma_fill_to_the_brim(glass.sand(), w, h, ps);
}

/// The grains above the middle row and those from it down are all the grains.
pub proof fn lemma_top_and_bottom_make_total(glass: &Hourglass)
    requires
        glass.inv(),
    ensures
        glass.top_sand() + glass.bottom_sand() == glass.total_sand(),
{
    lemma_rect_sum_split(
        glass.sand(),
        glass.spec_width() as int,
        0,
        glass.spec_width() as int,
        0,
        glass.spec_height() as int / 2,
        glass.spec_height() as int,
    );
}

} // verus!
