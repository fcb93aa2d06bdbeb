//! The glass: a fixed outline and the grains that rest in it.

use vstd::prelude::*;
use crate::grid::{Grid, offset, lemma_offset_in_range};
use crate::flow::{MoveDirection, shaped, tick, row_pass, lemma_step, lemma_tick_band, lemma_row_pass};
use crate::random::draw_below_three;
use crate::interior::{
    interior_positions,
    interior_in_row,
    walls_before,
    fill_upto,
    fill_budget,
    room_before,
    offset_of,
    distinct_cells,
    lemma_interior_sorted,
    lemma_fill_upto,
};
use crate::text::{text_upto, row_text, glyph_of, chars_to_string};
use crate::layout::{LayoutCell, layout_cell, valid_dimensions, populate_layout};
use crate::sums::{
    MAX_CELL_SAND,
    counts_bounded,
    rect_sum,
    row_sum,
    lemma_rect_sum_bound,
    lemma_row_sum_bound,
    lemma_rect_sum_no_columns,
};

verus! {

/// Whether `(x, y)` stops a grain: outside the glass, a wall, or a full cell.
pub open spec fn solid(
    walls: Seq<LayoutCell>,
    sand: Seq<u8>,
    width: int,
    height: int,
    x: int,
    y: int,
) -> bool {
    !(0 <= x < width && 0 <= y < height) || walls[offset(width, x, y)] is Wall
        || sand[offset(width, x, y)] >= MAX_CELL_SAND
}

/// An hourglass: its outline, the grains in each cell, and whether the neck
/// is pinched shut.
pub struct Hourglass {
    layout: Grid<LayoutCell>,
    state: Grid<u8>,
    pinched: bool,
}

impl Hourglass {
    pub closed spec fn spec_width(&self) -> nat {
        self.layout.spec_width()
    }

    pub closed spec fn spec_height(&self) -> nat {
        self.layout.spec_height()
    }

    /// The outline, row by row.
    pub closed spec fn walls(&self) -> Seq<LayoutCell> {
        self.layout@
    }

    /// The grains in each cell, row by row.
    pub closed spec fn sand(&self) -> Seq<u8> {
        self.state@
    }

    pub closed spec fn is_pinched(&self) -> bool {
        self.pinched
    }

    /// The two grids are well formed and of one size.
    pub closed spec fn grids_agree(&self) -> bool {
        &&& self.layout.wf()
        &&& self.state.wf()
        &&& self.state.spec_width() == self.layout.spec_width()
        &&& self.state.spec_height() == self.layout.spec_height()
    }

    pub open spec fn inv(&self) -> bool {
        &&& self.grids_agree()
        &&& valid_dimensions(self.spec_width() as int, self.spec_height() as int)
        &&& 2 * self.spec_width() * self.spec_height() <= usize::MAX
        &&& self.walls().len() == self.spec_width() * self.spec_height()
        &&& counts_bounded(self.sand(), self.spec_width() as int, self.spec_height() as int)
    }

    pub open spec fn wall_at(&self, x: int, y: int) -> LayoutCell {
        self.walls()[offset(self.spec_width() as int, x, y)]
    }

    pub open spec fn sand_at(&self, x: int, y: int) -> u8 {
        self.sand()[offset(self.spec_width() as int, x, y)]
    }

    pub open spec fn solid_at(&self, x: int, y: int) -> bool {
        solid(
            self.walls(),
            self.sand(),
            self.spec_width() as int,
            self.spec_height() as int,
            x,
            y,
        )
    }

    /// The two glasses have the same size, outline and pinch.
    pub open spec fn same_glass(&self, other: &Hourglass) -> bool {
        &&& self.spec_width() == other.spec_width()
        &&& self.spec_height() == other.spec_height()
        &&& self.walls() == other.walls()
        &&& self.is_pinched() == other.is_pinched()
    }

    /// All grains in the glass.
    pub open spec fn total_sand(&self) -> int {
        rect_sum(self.sand(), self.spec_width() as int, 0, self.spec_width() as int, 0, self.spec_height() as int)
    }

    /// The grains in the rows above the middle row `height / 2`.
    pub open spec fn top_sand(&self) -> int {
        rect_sum(
            self.sand(),
            self.spec_width() as int,
            0,
            self.spec_width() as int,
            0,
            self.spec_height() as int / 2,
        )
    }

    /// The grains in the middle row `height / 2` and below it.
    pub open spec fn bottom_sand(&self) -> int {
        rect_sum(
            self.sand(),
            self.spec_width() as int,
            0,
            self.spec_width() as int,
            self.spec_height() as int / 2,
            self.spec_height() as int,
        )
    }

    /// One tick of the flow from this glass, with `dirs[offset(width, x, y)]`
    /// the direction tried at `(x, y)`: the counts after, and how many grains moved.
    pub open spec fn ticked(&self, dirs: Seq<MoveDirection>) -> (Seq<u8>, int) {
        tick(
            self.walls(),
            self.sand(),
            self.spec_width() as int,
            self.spec_height() as int,
            self.is_pinched(),
            dirs,
            self.spec_height() as int,
        )
    }

    /// The cells inside the glass, row by row and left to right in each row.
    pub open spec fn interior(&self) -> Seq<(usize, usize)> {
        interior_positions(self.walls(), self.spec_width() as int, self.spec_height() as int)
    }

    /// The counts after filling the inside cells, from the top, with a
    /// `numerator / denominator` share of the grains they can hold.
    pub open spec fn filled(&self, numerator: int, denominator: int) -> Seq<u8> {
        let ps = self.interior();
        fill_upto(
            self.sand(),
            self.spec_width() as int,
            ps,
            fill_budget(ps.len() as int, numerator, denominator),
            ps.len() as int,
        )
    }

    /// The glass as text, one line per row.
    pub open spec fn text(&self) -> Seq<char> {
        text_upto(
            self.walls(),
            self.sand(),
            self.spec_width() as int,
            self.spec_height() as int,
            self.spec_height() as int,
        )
    }

    /// This glass is `before` turned upside down.
    pub open spec fn is_flip_of(&self, before: &Hourglass) -> bool {
        &&& self.spec_width() == before.spec_width()
        &&& self.spec_height() == before.spec_height()
        &&& self.is_pinched() == before.is_pinched()
        &&& self.walls() == before.walls().reverse()
        &&& self.sand() == before.sand().reverse()
    }

    /// An empty, unpinched glass `width` cells wide and `height` tall.
    pub fn new(width: usize, height: usize) -> (r: Hourglass)
        requires
            valid_dimensions(width as int, height as int),
            2 * width * height <= usize::MAX,
        ensures
            r.inv(),
            r.spec_width() == width,
            r.spec_height() == height,
            !r.is_pinched(),
            forall|x: int, y: int|
                0 <= x < width && 0 <= y < height ==> #[trigger] r.wall_at(x, y) == layout_cell(
                    width as int,
                    height as int,
                    x,
                    y,
                ),
            forall|i: int| 0 <= i < r.sand().len() ==> #[trigger] r.sand()[i] == 0,
    {
        assert(width * height <= 2 * width * height) by (nonlinear_arith)
            requires
                width >= 0,
                height >= 0,
        ;
        let mut layout = Grid::<LayoutCell>::new(width, height, || LayoutCell::Empty);
        populate_layout(&mut layout);
        let state = Grid::<u8>::new(width, height, no_grains);
        let r = Hourglass { layout, state, pinched: false };
        assert forall|x: int, y: int| 0 <= x < width && 0 <= y < height implies #[trigger] r.wall_at(
            x,
            y,
        ) == layout_cell(width as int, height as int, x, y) by {
            assert(r.layout.at(x, y) == layout_cell(width as int, height as int, x, y));
        }
        r
    }

    pub fn width(&self) -> (r: usize)
        requires
            self.inv(),
        ensures
            r == self.spec_width(),
    {
        self.layout.width()
    }

    pub fn height(&self) -> (r: usize)
        requires
            self.inv(),
        ensures
            r == self.spec_height(),
    {
        self.layout.height()
    }

    pub fn pinched(&self) -> (r: bool)
        ensures
            r == self.is_pinched(),
    {
        self.pinched
    }

    /// Shuts the neck: grains in the row just above the middle row no longer fall.
    pub fn pinch(&mut self)
        ensures
            final(self).is_pinched(),
            final(self).spec_width() == old(self).spec_width(),
            final(self).spec_height() == old(self).spec_height(),
            final(self).walls() == old(self).walls(),
            final(self).sand() == old(self).sand(),
            final(self).grids_agree() == old(self).grids_agree(),
    {
        self.pinched = true;
    }

    /// Opens the neck again.
    pub fn unpinch(&mut self)
        ensures
            !final(self).is_pinched(),
            final(self).spec_width() == old(self).spec_width(),
            final(self).spec_height() == old(self).spec_height(),
            final(self).walls() == old(self).walls(),
            final(self).sand() == old(self).sand(),
            final(self).grids_agree() == old(self).grids_agree(),
    {
        self.pinched = false;
    }

    /// Whether a grain cannot enter `pos`: it lies outside the glass, holds a
    /// wall, or already holds `MAX_CELL_SAND` grains.
    pub fn is_solid_at(&self, pos: (usize, usize)) -> (r: bool)
        requires
            self.inv(),
        ensures
            r == self.solid_at(pos.0 as int, pos.1 as int),
    {
        if !self.layout.is_in_bounds(pos) {
            true
        } else {
            match *self.layout.get(pos) {
                LayoutCell::Wall(_) => true,
                LayoutCell::Empty => *self.state.get(pos) >= MAX_CELL_SAND,
            }
        }
    }

    /// Adds one grain at `pos` unless it already holds `MAX_CELL_SAND`; says
    /// whether it did.
    pub fn try_place_sand(&mut self, pos: (usize, usize)) -> (r: bool)
        requires
            old(self).inv(),
            pos.0 < old(self).spec_width(),
            pos.1 < old(self).spec_height(),
        ensures
            final(self).inv(),
            final(self).same_glass(old(self)),
            r == (old(self).sand_at(pos.0 as int, pos.1 as int) < MAX_CELL_SAND),
            final(self).sand() == if r {
                old(self).sand().update(
                    offset(old(self).spec_width() as int, pos.0 as int, pos.1 as int),
                    (old(self).sand_at(pos.0 as int, pos.1 as int) + 1) as u8,
                )
            } else {
                old(self).sand()
            },
    {
        proof {
            lemma_offset_in_range(self.spec_width() as int, self.spec_height() as int, pos.0 as int, pos.1 as int);
        }
        let here: u8 = *self.state.get(pos);
        if here < MAX_CELL_SAND {
            self.state.set(pos, here + 1);
            true
        } else {
            false
        }
    }

    /// The cells inside the glass: in each row, the empty cells after the first
    /// wall and before the next one; rows from the top, cells from the left.
    pub fn get_interior_positions(&self) -> (r: Vec<(usize, usize)>)
        requires
            self.inv(),
        ensures
            r@ == self.interior(),
    {
        let ghost walls = self.walls();
        let width: usize = self.width();
        let height: usize = self.height();
        let ghost w = width as int;
        let mut vec: Vec<(usize, usize)> = Vec::new();
        let mut y: usize = 0;
        while y < height
            invariant
                self.inv(),
                walls == self.walls(),
                w == width,
                width == self.spec_width(),
                height == self.spec_height(),
                y <= height,
                vec@ == interior_positions(walls, w, y as int),
            decreases height - y,
        {
            let mut walls_seen: u8 = 0;
            let mut x: usize = 0;
            while x < width
                invariant
                    self.inv(),
                    walls == self.walls(),
                    w == width,
                    width == self.spec_width(),
                    height == self.spec_height(),
                    y < height,
                    x <= width,
                    vec@ == interior_positions(walls, w, y as int) + interior_in_row(walls, w, y as int, x as int),
                    walls_before(walls, w, y as int, x as int) >= 0,
                    walls_seen as int == if walls_before(walls, w, y as int, x as int) < 2 {
                        walls_before(walls, w, y as int, x as int)
                    } else {
                        2
                    },
                decreases width - x,
            {
                let empty_here: bool = match *self.layout.get((x, y)) {
                    LayoutCell::Empty => true,
                    LayoutCell::Wall(_) => false,
                };
                let ghost before = vec@;
                if empty_here {
                    if walls_seen == 1 {
                        vec.push((x, y));
                        proof {
                            assert(vec@ =~= interior_positions(walls, w, y as int) + interior_in_row(
                                walls,
                                w,
                                y as int,
                                x as int + 1,
                            ));
                        }
                    }
                } else if walls_seen < 2 {
                    walls_seen = walls_seen + 1;
                }
                x = x + 1;
            }
            y = y + 1;
        }
        vec
    }

    /// Pours grains into the inside cells from the top: the budget is a
    /// `numerator / denominator` share of what the inside cells can hold,
    /// rounded down, and each inside cell in turn, row by row, is topped up
    /// to `MAX_CELL_SAND` until the budget runs out.
    pub fn fill_with_sand_from_top(&mut self, numerator: u32, denominator: u32)
        requires
            old(self).inv(),
            0 < denominator,
            numerator <= denominator,
        ensures
            final(self).inv(),
            final(self).same_glass(old(self)),
            final(self).sand() == old(self).filled(numerator as int, denominator as int),
    {
        let ghost start = self.sand();
        let ghost w = self.spec_width() as int;
        let ghost h = self.spec_height() as int;
        let positions = self.get_interior_positions();
        let ghost ps = positions@;
        proof {
            assert(w <= 2 * w * h && h <= 2 * w * h) by (nonlinear_arith)
                requires
                    w >= 1,
                    h >= 1,
            ;
            lemma_interior_sorted(self.walls(), w, h);
        }
        let n: usize = positions.len();
        assert((n as int) * 2 * (numerator as int) <= (u64::MAX as int) * 2 * (u32::MAX as int))
            by (nonlinear_arith)
            requires
                n as int <= u64::MAX as int,
                numerator as int <= u32::MAX as int,
                numerator >= 0,
        ;
        let budget: u128 = (n as u128) * (MAX_CELL_SAND as u128) * (numerator as u128)
            / (denominator as u128);
        let ghost b = budget as int;
        assert(b == fill_budget(n as int, numerator as int, denominator as int));
        let mut grains_left: u128 = budget;
        let mut k: usize = 0;
        while k < n
            invariant
                self.inv(),
                self.spec_width() == w,
                self.spec_height() == h,
                self.walls() == old(self).walls(),
                self.is_pinched() == old(self).is_pinched(),
                start == old(self).sand(),
                counts_bounded(start, w, h),
                ps == positions@,
                ps == old(self).interior(),
                n == ps.len(),
                distinct_cells(ps, w, h),
                k <= n,
                self.sand() == fill_upto(start, w, ps, b, k as int),
                grains_left as int == if b - room_before(start, w, ps, k as int) > 0 {
                    b - room_before(start, w, ps, k as int)
                } else {
                    0
                },
            decreases n - k,
        {
            let pos: (usize, usize) = positions[k];
            proof {
                lemma_fill_upto(start, w, h, ps, b, k as int);
                lemma_offset_in_range(w, h, pos.0 as int, pos.1 as int);
                assert forall|j: int| 0 <= j < k implies offset_of(w, #[trigger] ps[j]) != offset_of(w, pos) by {
                    assert(offset_of(w, ps[j]) < offset_of(w, ps[k as int]));
                }
            }
            let here: u8 = *self.state.get(pos);
            let room: u8 = MAX_CELL_SAND - here;
            let grains: u128 = if grains_left < room as u128 {
                grains_left
            } else {
                room as u128
            };
            grains_left = grains_left - grains;
            self.state.set(pos, here + grains as u8);
            proof {
                let now = self.sand();
                assert forall|i: int| 0 <= i < now.len() implies #[trigger] now[i] <= MAX_CELL_SAND by {
                    if i != offset_of(w, pos) {
                        assert(now[i] == fill_upto(start, w, ps, b, k as int)[i]);
                    }
                }
            }
            k = k + 1;
        }
    }

    /// The glass as text: each wall shows its glyph, each other cell ` `, `.`
    /// or `:` for zero, one or two grains; rows are separated by line breaks,
    /// with none after the last.
    pub fn render(&self) -> (r: String)
        requires
            self.inv(),
        ensures
            r@ == self.text(),
    {
        let ghost walls = self.walls();
        let ghost sand = self.sand();
        let width: usize = self.width();
        let height: usize = self.height();
        let ghost w = width as int;
        let ghost h = height as int;
        let mut out: Vec<char> = Vec::new();
        let mut y: usize = 0;
        while y < height
            invariant
                self.inv(),
                walls == self.walls(),
                sand == self.sand(),
                w == width,
                h == height,
                width == self.spec_width(),
                height == self.spec_height(),
                y <= height,
                out@ == text_upto(walls, sand, w, h, y as int),
            decreases height - y,
        {
            let mut x: usize = 0;
            while x < width
                invariant
                    self.inv(),
                    walls == self.walls(),
                    sand == self.sand(),
                    w == width,
                    h == height,
                    width == self.spec_width(),
                    height == self.spec_height(),
                    y < height,
                    x <= width,
                    out@ == text_upto(walls, sand, w, h, y as int) + row_text(walls, sand, w, y as int).subrange(
                        0,
                        x as int,
                    ),
                decreases width - x,
            {
                let c: char = glyph_of(*self.layout.get((x, y)), *self.state.get((x, y)));
                out.push(c);
                proof {
                    assert(out@ =~= text_upto(walls, sand, w, h, y as int) + row_text(walls, sand, w, y as int).subrange(
                        0,
                        x as int + 1,
                    ));
                }
                x = x + 1;
            }
            proof {
                assert(row_text(walls, sand, w, y as int).subrange(0, w) =~= row_text(walls, sand, w, y as int));
            }
            if y < height - 1 {
                out.push('\n');
            }
            proof {
                assert(out@ =~= text_upto(walls, sand, w, h, y as int + 1));
            }
            y = y + 1;
        }
        chars_to_string(&out)
    }

    /// Whether the grain at `(x, y)` may move in `dir`.
    fn can_flow(&self, x: usize, y: usize, dir: MoveDirection) -> (r: bool)
        requires
            self.inv(),
            x < self.spec_width(),
            y < self.spec_height(),
        ensures
            r == crate::flow::can_flow(
                self.walls(),
                self.sand(),
                self.spec_width() as int,
                self.spec_height() as int,
                x as int,
                y as int,
                dir,
            ),
    {
        assert(self.spec_height() <= 2 * self.spec_width() * self.spec_height()) by (nonlinear_arith)
            requires
                self.spec_width() >= 1,
        ;
        let here: u8 = *self.state.get((x, y));
        let solid_below = self.is_solid_at((x, y + 1));
        if here < 1 {
            return false;
        }
        match dir {
            MoveDirection::Down => y < self.height() - 1 && !solid_below,
            MoveDirection::Right => {
                let side_solid = self.is_solid_at((x + 1, y));
                solid_below && !side_solid && ((here > 1 && here - 1 > *self.state.get((x + 1, y)))
                    || !self.is_solid_at((x + 1, y + 1)))
            },
            MoveDirection::Left => {
                let side_solid = x == 0 || self.is_solid_at((x - 1, y));
                solid_below && !side_solid && ((here > 1 && here - 1 > *self.state.get((x - 1, y)))
                    || !self.is_solid_at((x - 1, y + 1)))
            },
        }
    }

    /// One tick of the flow, with `directions[y * width + x]` the direction
    /// tried for the grain at `(x, y)`. Rows go from the bottom up and each row
    /// from left to right; a grain moves only if its direction is allowed, and
    /// never falls out of the row above the middle row while the neck is
    /// pinched. Returns how many grains moved.
    pub fn advance_with(&mut self, directions: &Vec<MoveDirection>) -> (r: usize)
        requires
            old(self).inv(),
            directions@.len() == old(self).spec_width() * old(self).spec_height(),
        ensures
            final(self).inv(),
            final(self).same_glass(old(self)),
            (final(self).sand(), r as int) == old(self).ticked(directions@),
            final(self).total_sand() == old(self).total_sand(),
            old(self).is_pinched() ==> final(self).top_sand() == old(self).top_sand()
                && final(self).bottom_sand() == old(self).bottom_sand(),
    {
        let ghost start = self.sand();
        let ghost walls = self.walls();
        let ghost dirs = directions@;
        let width: usize = self.width();
        let height: usize = self.height();
        let ghost w = width as int;
        let ghost h = height as int;
        let ghost pinched = self.pinched;
        proof {
            lemma_tick_band(walls, start, w, h, pinched, dirs, h, 0, h);
            if pinched {
                lemma_tick_band(walls, start, w, h, pinched, dirs, h, 0, h / 2);
                lemma_tick_band(walls, start, w, h, pinched, dirs, h, h / 2, h);
            }
        }
        let mut moves: usize = 0;
        let mut row: usize = height;
        while row > 0
            invariant
                self.inv(),
                self.spec_width() == width,
                self.spec_height() == height,
                self.walls() == walls,
                self.is_pinched() == pinched,
                dirs == directions@,
                dirs.len() == w * h,
                w == width,
                h == height,
                row <= height,
                shaped(walls, start, w, h),
                (self.sand(), moves as int) == tick(walls, start, w, h, pinched, dirs, h - row),
            decreases row,
        {
            let y: usize = row - 1;
            let skip_down: bool = self.pinched && y == height / 2 - 1;
            let ghost row_start = self.sand();
            let ghost moves_start = moves as int;
            proof {
                lemma_tick_band(walls, start, w, h, pinched, dirs, h - row, 0, h);
            }
            let mut x: usize = 0;
            while x < width
                invariant
                    self.inv(),
                    self.spec_width() == width,
                    self.spec_height() == height,
                    self.walls() == walls,
                    self.is_pinched() == pinched,
                    dirs == directions@,
                    dirs.len() == w * h,
                    w == width,
                    h == height,
                    0 < row <= height,
                    y == row - 1,
                    skip_down == (pinched && y == h / 2 - 1),
                    x <= width,
                    shaped(walls, start, w, h),
                    shaped(walls, row_start, w, h),
                    (row_start, moves_start) == tick(walls, start, w, h, pinched, dirs, h - row),
                    0 <= moves_start <= (h - row) * w,
                    self.sand() == row_pass(walls, row_start, w, h, pinched, dirs, y as int, x as int).0,
                    moves as int == moves_start + row_pass(
                        walls,
                        row_start,
                        w,
                        h,
                        pinched,
                        dirs,
                        y as int,
                        x as int,
                    ).1,
                decreases width - x,
            {
                proof {
                    lemma_offset_in_range(w, h, x as int, y as int);
                    lemma_row_pass(walls, row_start, w, h, pinched, dirs, y as int, x as int, 0, h);
                    assert((h - row) * w + x + 1 <= w * h) by (nonlinear_arith)
                        requires
                            0 < row <= h,
                            x < w,
                    ;
                }
                let dir: MoveDirection = directions[y * width + x];
                let ghost current = self.sand();
                proof {
                    lemma_step(walls, current, w, h, pinched, x as int, y as int, dir);
                }
                if !(skip_down && dir == MoveDirection::Down) && self.can_flow(x, y, dir) {
                    let here: u8 = *self.state.get((x, y));
                    self.state.set((x, y), here - 1);
                    let to: (usize, usize) = match dir {
                        MoveDirection::Down => (x, y + 1),
                        MoveDirection::Right => (x + 1, y),
                        MoveDirection::Left => (x - 1, y),
                    };
                    let there: u8 = *self.state.get(to);
                    self.state.set(to, there + 1);
                    moves = moves + 1;
                }
                x = x + 1;
            }
            row = row - 1;
        }
        moves
    }

    /// One tick of the flow, with the direction tried for each cell drawn
    /// from `rng`, uniformly among down, right and left. Returns how many
    /// grains moved.
    pub fn advance(&mut self, rng: &mut rand::rngs::StdRng) -> (r: usize)
        requires
            old(self).inv(),
        ensures
            final(self).inv(),
            final(self).same_glass(old(self)),
            exists|dirs: Seq<MoveDirection>|
                (final(self).sand(), r as int) == #[trigger] old(self).ticked(dirs),
            final(self).total_sand() == old(self).total_sand(),
            old(self).is_pinched() ==> final(self).top_sand() == old(self).top_sand()
                && final(self).bottom_sand() == old(self).bottom_sand(),
    {
        let width: usize = self.width();
        let height: usize = self.height();
        let n: usize = width * height;
        let mut directions: Vec<MoveDirection> = Vec::new();
        let mut i: usize = 0;
        while i < n
            invariant
                i <= n,
                directions@.len() == i,
            decreases n - i,
        {
            directions.push(MoveDirection::Down);
            i = i + 1;
        }
        let mut row: usize = height;
        while row > 0
            invariant
                row <= height,
                n == width * height,
                directions@.len() == n,
            decreases row,
        {
            let y: usize = row - 1;
            let mut x: usize = 0;
            while x < width
                invariant
                    x <= width,
                    y < height,
                    n == width * height,
                    directions@.len() == n,
                decreases width - x,
            {
                proof {
                    lemma_offset_in_range(width as int, height as int, x as int, y as int);
                }
                let code: u8 = draw_below_three(rng);
                directions.set(y * width + x, direction_of(code));
                x = x + 1;
            }
            row = row - 1;
        }
        self.advance_with(&directions)
    }

    /// Ticks until sixteen ticks in a row move nothing, and returns how many
    /// ticks ran. The count stops at `u64::MAX`, where the run ends too.
    pub fn settle_state(&mut self, rng: &mut rand::rngs::StdRng) -> (r: u64)
        requires
            old(self).inv(),
        ensures
            final(self).inv(),
            final(self).same_glass(old(self)),
            16 <= r,
            final(self).total_sand() == old(self).total_sand(),
            old(self).is_pinched() ==> final(self).top_sand() == old(self).top_sand()
                && final(self).bottom_sand() == old(self).bottom_sand(),
    {
        let mut steps: u64 = 0;
        let mut inactive_for: u32 = 0;
        while inactive_for < 16 && steps < u64::MAX
            invariant
                self.inv(),
                self.same_glass(old(self)),
                inactive_for <= steps,
                inactive_for <= 16,
                self.total_sand() == old(self).total_sand(),
                old(self).is_pinched() ==> self.top_sand() == old(self).top_sand()
                    && self.bottom_sand() == old(self).bottom_sand(),
            decreases u64::MAX - steps,
        {
            let moves: usize = self.advance(rng);
            if moves == 0 {
                inactive_for = inactive_for + 1;
            } else {
                inactive_for = 0;
            }
            steps = steps + 1;
        }
        steps
    }

    /// Turns the glass upside down: outline and grains alike.
    pub fn flip(&mut self)
        requires
            old(self).inv(),
        ensures
            final(self).inv(),
            final(self).is_flip_of(old(self)),
    {
        self.state.flip();
        self.layout.flip();
        proof {
            let sand = self.sand();
            assert forall|i: int| 0 <= i < sand.len() implies #[trigger] sand[i] <= MAX_CELL_SAND by {
                assert(old(self).sand()[old(self).sand().len() - 1 - i] <= MAX_CELL_SAND);
            }
        }
    }

    /// The grains in columns `range_x` of rows `range_y`.
    pub fn count_sand(&self, range_x: std::ops::Range<usize>, range_y: std::ops::Range<usize>) -> (r: usize)
        requires
            self.inv(),
            range_x.start < range_x.end && range_y.start < range_y.end ==> range_x.end
                <= self.spec_width() && range_y.end <= self.spec_height(),
        ensures
            r == rect_sum(
                self.sand(),
                self.spec_width() as int,
                range_x.start as int,
                range_x.end as int,
                range_y.start as int,
                range_y.end as int,
            ),
    {
        let ghost sand = self.sand();
        let ghost width = self.spec_width() as int;
        let ghost height = self.spec_height() as int;
        let x0: usize = range_x.start;
        let x1: usize = range_x.end;
        let y0: usize = range_y.start;
        let y1: usize = range_y.end;
        if x1 <= x0 || y1 <= y0 {
            proof {
                lemma_rect_sum_no_columns(sand, width, x0 as int, x1 as int, y0 as int, y1 as int);
            }
            return 0;
        }
        let mut count: usize = 0;
        let mut y: usize = y0;
        while y < y1
            invariant
                self.inv(),
                sand == self.sand(),
                width == self.spec_width(),
                height == self.spec_height(),
                x0 < x1 <= width,
                y0 <= y <= y1 <= height,
                count == rect_sum(sand, width, x0 as int, x1 as int, y0 as int, y as int),
            decreases y1 - y,
        {
            let mut x: usize = x0;
            while x < x1
                invariant
                    self.inv(),
                    sand == self.sand(),
                    width == self.spec_width(),
                    height == self.spec_height(),
                    x0 <= x <= x1 <= width,
                    y0 <= y < y1 <= height,
                    count == rect_sum(sand, width, x0 as int, x1 as int, y0 as int, y as int)
                        + row_sum(sand, width, y as int, x0 as int, x as int),
                decreases x1 - x,
            {
                proof {
                    lemma_rect_sum_bound(sand, width, height, x0 as int, x1 as int, y0 as int, y as int);
                    lemma_row_sum_bound(sand, width, height, y as int, x0 as int, x as int + 1);
                    assert(2 * (x1 - x0) * (y - y0) + 2 * (x + 1 - x0) <= 2 * width * height)
                        by (nonlinear_arith)
                        requires
                            x0 <= x < x1 <= width,
                            y0 <= y < y1 <= height,
                    ;
                }
                let cell: u8 = *self.state.get((x, y));
                count = count + cell as usize;
                x = x + 1;
            }
            y = y + 1;
        }
        count
    }

    /// The grains above the middle row.
    pub fn count_top_sand(&self) -> (r: usize)
        requires
            self.inv(),
        ensures
            r == self.top_sand(),
    {
        self.count_sand(0..self.width(), 0..(self.height() / 2))
    }

    /// The grains in the middle row and below it.
    pub fn count_bottom_sand(&self) -> (r: usize)
        requires
            self.inv(),
        ensures
            r == self.bottom_sand(),
    {
        self.count_sand(0..self.width(), (self.height() / 2)..self.height())
    }
}

/// The direction that a draw from `0..3` stands for.
fn direction_of(code: u8) -> (r: MoveDirection)
    requires
        code < 3,
    ensures
        code == 0 ==> r == MoveDirection::Down,
        code == 1 ==> r == MoveDirection::Right,
        code == 2 ==> r == MoveDirection::Left,
{
    if code == 0 {
        MoveDirection::Down
    } else if code == 1 {
        MoveDirection::Right
    } else {
        MoveDirection::Left
    }
}

/// The count of a cell that holds nothing.
fn no_grains() -> (r: u8)
    ensures
        r == 0,
{
    0
}

} // verus!
