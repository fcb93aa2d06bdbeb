//! A fixed-size two-dimensional container over a flat row-major store.

use vstd::prelude::*;

verus! {

/// Row-major offset of the position `(x, y)` in a grid `width` cells wide.
pub open spec fn offset(width: int, x: int, y: int) -> int {
    y * width + x
}

/// Every in-range position has an offset inside the backing store.
pub proof fn lemma_offset_in_range(width: int, height: int, x: int, y: int)
    requires
        0 <= x < width,
        0 <= y < height,
    ensures
        0 <= offset(width, x, y) < width * height,
{
    assert(0 <= y * width) by (nonlinear_arith)
        requires
            0 <= y,
            0 <= x < width,
    ;
    assert(y * width + width <= width * height) by (nonlinear_arith)
        requires
            0 <= y < height,
            0 < width,
    ;
}

/// Distinct in-range positions have distinct offsets.
pub proof fn lemma_offset_injective(width: int, x1: int, y1: int, x2: int, y2: int)
    requires
        0 <= x1 < width,
        0 <= x2 < width,
        0 <= y1,
        0 <= y2,
        offset(width, x1, y1) == offset(width, x2, y2),
    ensures
        x1 == x2,
        y1 == y2,
{
    if y1 < y2 {
        assert(y1 * width + width <= y2 * width) by (nonlinear_arith)
            requires
                y1 < y2,
                0 < width,
        ;
    } else if y2 < y1 {
        assert(y2 * width + width <= y1 * width) by (nonlinear_arith)
            requires
                y2 < y1,
                0 < width,
        ;
    }
}

/// The offset of a position, counted from the far end of the store, is the
/// offset of the position rotated by half a turn.
pub proof fn lemma_offset_reversed(width: int, height: int, x: int, y: int)
    requires
        0 <= x < width,
        0 <= y < height,
    ensures
        width * height - 1 - offset(width, x, y) == offset(width, width - 1 - x, height - 1 - y),
{
    assert(width * height - 1 - (y * width + x) == (height - 1 - y) * width + (width - 1 - x))
        by (nonlinear_arith);
}

/// A `width` by `height` grid whose cells are stored row by row. A clone
/// holds its own copy of every cell.
#[derive(Clone)]
pub struct Grid<T> {
    width: usize,
    height: usize,
    cells: Vec<T>,
}

impl<T> View for Grid<T> {
    type V = Seq<T>;

    /// The cells in row-major order.
    closed spec fn view(&self) -> Seq<T> {
        self.cells@
    }
}

impl<T> Grid<T> {
    pub closed spec fn spec_width(&self) -> nat {
        self.width as nat
    }

    pub closed spec fn spec_height(&self) -> nat {
        self.height as nat
    }

    /// The store holds exactly one cell per position.
    pub open spec fn wf(&self) -> bool {
        &&& self@.len() == self.spec_width() * self.spec_height()
        &&& self.spec_width() * self.spec_height() <= usize::MAX
    }

    pub open spec fn contains(&self, pos: (usize, usize)) -> bool {
        pos.0 < self.spec_width() && pos.1 < self.spec_height()
    }

    /// The cell at column `x` of row `y`.
    pub open spec fn at(&self, x: int, y: int) -> T {
        self@[offset(self.spec_width() as int, x, y)]
    }

    /// Builds a grid whose every cell is made by its own call of `element_creator`.
    pub fn new<F: Fn() -> T>(width: usize, height: usize, element_creator: F) -> (r: Grid<T>)
        requires
            width * height <= usize::MAX,
            element_creator.requires(()),
        ensures
            r.wf(),
            r.spec_width() == width,
            r.spec_height() == height,
            forall|i: int| 0 <= i < r@.len() ==> element_creator.ensures((), #[trigger] r@[i]),
    {
        let n: usize = width * height;
        let mut cells: Vec<T> = Vec::new();
        let mut i: usize = 0;
        while i < n
            invariant
                i <= n,
                n == width * height,
                cells@.len() == i,
                element_creator.requires(()),
                forall|k: int| 0 <= k < i ==> element_creator.ensures((), #[trigger] cells@[k]),
            decreases n - i,
        {
            let element = element_creator();
            cells.push(element);
            i = i + 1;
        }
        Grid { width, height, cells }
    }

    pub fn is_in_bounds(&self, pos: (usize, usize)) -> (r: bool)
        ensures
            r == self.contains(pos),
    {
        pos.0 < self.width && pos.1 < self.height
    }

    pub fn width(&self) -> (r: usize)
        ensures
            r == self.spec_width(),
    {
        self.width
    }

    pub fn height(&self) -> (r: usize)
        ensures
            r == self.spec_height(),
    {
        self.height
    }

    /// Reads the cell at `pos`.
    pub fn get(&self, pos: (usize, usize)) -> (r: &T)
        requires
            self.wf(),
            self.contains(pos),
        ensures
            *r == self.at(pos.0 as int, pos.1 as int),
    {
        proof {
            lemma_offset_in_range(self.width as int, self.height as int, pos.0 as int, pos.1 as int);
        }
        &self.cells[pos.1 * self.width + pos.0]
    }

    /// Replaces the cell at `pos` with `value`.
    pub fn set(&mut self, pos: (usize, usize), value: T)
        requires
            old(self).wf(),
            old(self).contains(pos),
        ensures
            final(self).wf(),
            final(self).spec_width() == old(self).spec_width(),
            final(self).spec_height() == old(self).spec_height(),
            final(self)@ == old(self)@.update(
                offset(old(self).spec_width() as int, pos.0 as int, pos.1 as int),
                value,
            ),
            forall|x: int, y: int|
                0 <= x < old(self).spec_width() && 0 <= y < old(self).spec_height() ==> #[trigger] final(self).at(x, y) == if x == pos.0 && y == pos.1 {
                    value
                } else {
                    old(self).at(x, y)
                },
    {
        proof {
            lemma_offset_in_range(self.width as int, self.height as int, pos.0 as int, pos.1 as int);
            assert forall|x: int, y: int|
                0 <= x < self.width && 0 <= y < self.height && !(x == pos.0 && y == pos.1)
                implies #[trigger] offset(self.width as int, x, y) != offset(
                self.width as int,
                pos.0 as int,
                pos.1 as int,
            ) && 0 <= offset(self.width as int, x, y) < self@.len() by {
                lemma_offset_in_range(self.width as int, self.height as int, x, y);
                if offset(self.width as int, x, y) == offset(self.width as int, pos.0 as int, pos.1 as int) {
                    lemma_offset_injective(self.width as int, x, y, pos.0 as int, pos.1 as int);
                }
            }
        }
        let i: usize = pos.1 * self.width + pos.0;
        self.cells.set(i, value);
    }

    /// Reverses the whole store, which turns the grid by half a turn: the
    /// cell at `(x, y)` moves to `(width - 1 - x, height - 1 - y)`.
    pub fn flip(&mut self)
        requires
            old(self).wf(),
        ensures
            final(self).wf(),
            final(self).spec_width() == old(self).spec_width(),
            final(self).spec_height() == old(self).spec_height(),
            final(self)@ == old(self)@.reverse(),
    {
        let mut rest: Vec<T> = Vec::new();
        std::mem::swap(&mut rest, &mut self.cells);
        let ghost cells_before = rest@;
        let ghost n = cells_before.len();
        while rest.len() > 0
            invariant
                self.width == old(self).width,
                self.height == old(self).height,
                cells_before == old(self).cells@,
                n == cells_before.len(),
                rest@ == cells_before.subrange(0, rest@.len() as int),
                self.cells@.len() + rest@.len() == n,
                forall|k: int|
                    0 <= k < self.cells@.len() ==> #[trigger] self.cells@[k] == cells_before[n - 1 - k],
            decreases rest@.len(),
        {
            let element = rest.pop().unwrap();
            self.cells.push(element);
        }
        proof {
            assert(self.cells@ =~= cells_before.reverse());
        }
    }
}

} // verus!
