//! How a glass looks as text.

use vstd::prelude::*;
use crate::grid::offset;
use crate::layout::LayoutCell;

verus! {

/// The character shown for a cell: a wall's own glyph, or for an empty cell
/// ` `, `.` or `:` for zero, one or two grains.
pub open spec fn glyph(cell: LayoutCell, grains: u8) -> char {
    match cell {
        LayoutCell::Wall(c) => c,
        LayoutCell::Empty => if grains == 0 {
            ' '
        } else if grains == 1 {
            '.'
        } else if grains == 2 {
            ':'
        } else {
            '?'
        },
    }
}

/// Row `y` as text.
pub open spec fn row_text(walls: Seq<LayoutCell>, sand: Seq<u8>, width: int, y: int) -> Seq<char> {
    Seq::new(
        width as nat,
        |x: int| glyph(walls[offset(width, x, y)], sand[offset(width, x, y)]),
    )
}

/// Rows `0..k` as text, each followed by a line break except the last row of
/// the glass.
pub open spec fn text_upto(
    walls: Seq<LayoutCell>,
    sand: Seq<u8>,
    width: int,
    height: int,
    k: int,
) -> Seq<char>
    decreases k,
{
    if k <= 0 {
        Seq::empty()
    } else {
        text_upto(walls, sand, width, height, k - 1) + row_text(walls, sand, width, k - 1) + if k
            < height {
            seq!['\n']
        } else {
            Seq::empty()
        }
    }
}

/// Computes `glyph`.
pub fn glyph_of(cell: LayoutCell, grains: u8) -> (r: char)
    ensures
        r == glyph(cell, grains),
{
    match cell {
        LayoutCell::Wall(c) => c,
        LayoutCell::Empty => if grains == 0 {
            ' '
        } else if grains == 1 {
            '.'
        } else if grains == 2 {
            ':'
        } else {
            '?'
        },
    }
}

/// Relies on `String`'s `FromIterator<char>`: the string holds the given
/// characters, in order.
#[verifier::external_body]
pub(crate) fn chars_to_string(chars: &Vec<char>) -> (r: String)
    ensures
        r@ == chars@,
{
    chars.iter().collect()
}

} // verus!
