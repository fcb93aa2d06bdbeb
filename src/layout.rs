//! The outline of the glass: which positions are walls, and with which glyph.

use vstd::prelude::*;
use crate::grid::Grid;

verus! {

/// What stands at a position of the glass, fixed when the glass is made.
#[derive(Clone, Copy, PartialEq, Eq, Structural)]
pub enum LayoutCell {
    Empty,
    Wall(char),
}

/// A width and height that a glass can be made with.
pub open spec fn valid_dimensions(width: int, height: int) -> bool {
    width % 2 == 1 && height > width
}

/// The cell at `(x, y)` of the outline of a glass `width` by `height`.
///
/// The top and bottom rows are `=`. Each bulb has `height / 2 - width / 2`
/// rows next to its rim, the rim row included; below the rim those rows carry
/// `|` on both outer columns. Then `width / 2` rows taper towards the neck with
/// `\` and `/` in the upper bulb, and widen again with `/` and `\` in the lower
/// bulb. When the height is odd, the middle row has `|` on both sides of the
/// central column.
pub open spec fn layout_cell(width: int, height: int, x: int, y: int) -> LayoutCell {
    let slope = width / 2;
    let straight = height / 2 - slope;
    let lower = height - straight - slope;
    if y == 0 || y == height - 1 {
        LayoutCell::Wall('=')
    } else if (y < straight || height - 1 - straight < y) && (x == 0 || x == width - 1) {
        LayoutCell::Wall('|')
    } else if straight <= y < straight + slope && x == y - straight {
        LayoutCell::Wall('\\')
    } else if straight <= y < straight + slope && x == width - 1 - (y - straight) {
        LayoutCell::Wall('/')
    } else if lower <= y < lower + slope && x == slope - 1 - (y - lower) {
        LayoutCell::Wall('/')
    } else if lower <= y < lower + slope && x == slope + 1 + (y - lower) {
        LayoutCell::Wall('\\')
    } else if height % 2 == 1 && y == height / 2 && slope >= 1 && (x == slope - 1 || x
        == slope + 1) {
        LayoutCell::Wall('|')
    } else {
        LayoutCell::Empty
    }
}

/// A cell as seen in a mirror: the two slashes trade places.
pub open spec fn mirrored(c: LayoutCell) -> LayoutCell {
    match c {
        LayoutCell::Wall('\\') => LayoutCell::Wall('/'),
        LayoutCell::Wall('/') => LayoutCell::Wall('\\'),
        _ => c,
    }
}

/// The outline is its own mirror image across the central column and across
/// the middle row, and so it is unchanged by half a turn.
pub proof fn lemma_layout_symmetric(width: int, height: int, x: int, y: int)
    requires
        valid_dimensions(width, height),
        0 <= x < width,
        0 <= y < height,
    ensures
        layout_cell(width, height, width - 1 - x, y) == mirrored(layout_cell(width, height, x, y)),
        layout_cell(width, height, x, height - 1 - y) == mirrored(layout_cell(width, height, x, y)),
        layout_cell(width, height, width - 1 - x, height - 1 - y) == layout_cell(width, height, x, y),
{
    let slope = width / 2;
    let half = height / 2;
    assert(width == 2 * slope + 1);
    assert(height == 2 * half || height == 2 * half + 1);
}

/// Computes `layout_cell` for one position.
fn layout_cell_at(width: usize, height: usize, x: usize, y: usize) -> (r: LayoutCell)
    requires
        valid_dimensions(width as int, height as int),
        width * height <= usize::MAX,
        x < width,
        y < height,
    ensures
        r == layout_cell(width as int, height as int, x as int, y as int),
{
    assert(width * height >= width * 2) by (nonlinear_arith)
        requires
            height >= 2,
            width >= 0,
    ;
    let slope: usize = width / 2;
    let straight: usize = height / 2 - slope;
    let lower: usize = height - straight - slope;
    if y == 0 || y == height - 1 {
        LayoutCell::Wall('=')
    } else if (y < straight || height - 1 - straight < y) && (x == 0 || x == width - 1) {
        LayoutCell::Wall('|')
    } else if straight <= y && y < straight + slope && x == y - straight {
        LayoutCell::Wall('\\')
    } else if straight <= y && y < straight + slope && x == width - 1 - (y - straight) {
        LayoutCell::Wall('/')
    } else if lower <= y && y < lower + slope && x + (y - lower) + 1 == slope {
        LayoutCell::Wall('/')
    } else if lower <= y && y < lower + slope && x == slope + 1 + (y - lower) {
        LayoutCell::Wall('\\')
    } else if height % 2 == 1 && y == height / 2 && slope >= 1 && (x + 1 == slope || x == slope
        + 1) {
        LayoutCell::Wall('|')
    } else {
        LayoutCell::Empty
    }
}

/// Draws the outline of the glass into `layout`.
pub fn populate_layout(layout: &mut Grid<LayoutCell>)
    requires
        old(layout).wf(),
        valid_dimensions(old(layout).spec_width() as int, old(layout).spec_height() as int),
    ensures
        final(layout).wf(),
        final(layout).spec_width() == old(layout).spec_width(),
        final(layout).spec_height() == old(layout).spec_height(),
        forall|x: int, y: int|
            0 <= x < final(layout).spec_width() && 0 <= y < final(layout).spec_height()
                ==> #[trigger] final(layout).at(x, y) == layout_cell(
                final(layout).spec_width() as int,
                final(layout).spec_height() as int,
                x,
                y,
            ),
{
    let width: usize = layout.width();
    let height: usize = layout.height();
    let mut y: usize = 0;
    while y < height
        invariant
            layout.wf(),
            layout.spec_width() == width,
            layout.spec_height() == height,
            valid_dimensions(width as int, height as int),
            width * height <= usize::MAX,
            y <= height,
            forall|xx: int, yy: int|
                0 <= xx < width && 0 <= yy < y ==> #[trigger] layout.at(xx, yy) == layout_cell(
                    width as int,
                    height as int,
                    xx,
                    yy,
                ),
        decreases height - y,
    {
        let mut x: usize = 0;
        while x < width
            invariant
                layout.wf(),
                layout.spec_width() == width,
                layout.spec_height() == height,
                valid_dimensions(width as int, height as int),
                width * height <= usize::MAX,
                y < height,
                x <= width,
                forall|xx: int, yy: int|
                    0 <= xx < width && (0 <= yy < y || (yy == y && xx < x)) ==> #[trigger] layout.at(
                        xx,
                        yy,
                    ) == layout_cell(width as int, height as int, xx, yy),
            decreases width - x,
        {
            let cell = layout_cell_at(width, height, x, y);
            layout.set((x, y), cell);
            x = x + 1;
        }
        y = y + 1;
    }
}

} // verus!
