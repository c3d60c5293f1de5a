//! The outline of the cursor: where its four corners sit relative to the
//! centre of the cursor's cell, for each cursor shape.
//!
//! A coordinate is kept exactly, as a number of half cells plus a multiple
//! of the cursor's fill fraction; whoever animates the corners turns it into
//! pixels. Pixel positions are of a type `P` that the animation chooses: the
//! library stores them and never computes with them.

use crate::editor::CursorShape;
use vstd::prelude::*;

verus! {

/// One coordinate of a corner relative to the cell's centre, in cells:
/// `halves / 2 + fills * f`, where `f` is the cursor's fill fraction.
#[derive(Clone, Copy, Debug, PartialEq, Eq, Structural)]
pub struct Offset {
    pub halves: i8,
    pub fills: i8,
}

impl Offset {
    /// The coordinate for the fill fraction `numerator / denominator`,
    /// multiplied by `2 * denominator` so that it is a whole number.
    pub open spec fn scaled(self, numerator: int, denominator: int) -> int {
        self.halves * denominator + 2 * self.fills * numerator
    }
}

/// The corners of the unit square around the cell's centre, in half cells, in
/// the order in which the outline is drawn: top left, top right, bottom
/// right, bottom left.
pub open spec fn standard_corner(index: int) -> (int, int) {
    (
        if index == 1 || index == 2 {
            1
        } else {
            -1
        },
        if index == 2 || index == 3 {
            1
        } else {
            -1
        },
    )
}

/// Where corner `index` of a cursor of the given shape sits, as (x, y). A
/// block keeps the standard corners. A vertical bar has its right edge moved
/// to the fill fraction from the cell's left edge. A horizontal strip has its
/// top edge moved to the fill fraction from the cell's bottom edge.
pub open spec fn corner_offsets_of(shape: CursorShape, index: int) -> (Offset, Offset) {
    let (x, y) = standard_corner(index);
    match shape {
        CursorShape::Block => (
            Offset { halves: x as i8, fills: 0i8 },
            Offset { halves: y as i8, fills: 0i8 },
        ),
        CursorShape::Vertical => (
            Offset { halves: -1i8, fills: ((x + 1) / 2) as i8 },
            Offset { halves: y as i8, fills: 0i8 },
        ),
        CursorShape::Horizontal => (
            Offset { halves: x as i8, fills: 0i8 },
            Offset { halves: 1i8, fills: ((y - 1) / 2) as i8 },
        ),
    }
}

/// The position of corner `index` (0 to 3, in outline order) of a cursor of
/// the given shape, relative to the centre of its cell.
pub fn corner_offsets(shape: CursorShape, index: usize) -> (offsets: (Offset, Offset))
    requires
        index < 4,
    ensures
        offsets == corner_offsets_of(shape, index as int),
{
    let right = index == 1 || index == 2;
    let bottom = index == 2 || index == 3;
    let x: i8 = if right {
        1
    } else {
        -1
    };
    let y: i8 = if bottom {
        1
    } else {
        -1
    };
    match shape {
        CursorShape::Block => (Offset { halves: x, fills: 0 }, Offset { halves: y, fills: 0 }),
        CursorShape::Vertical => (
            Offset {
                halves: -1,
                fills: if right {
                    1
                } else {
                    0
                },
            },
            Offset { halves: y, fills: 0 },
        ),
        CursorShape::Horizontal => (
            Offset { halves: x, fills: 0 },
            Offset {
                halves: 1,
                fills: if bottom {
                    0
                } else {
                    -1
                },
            },
        ),
    }
}

/// Drawn in order and closed, the four corners make a rectangle with sides
/// along the axes: the outline goes right along the top, down the right
/// side, left along the bottom and up the left side.
pub proof fn lemma_outline_is_a_rectangle(shape: CursorShape)
    ensures
        corner_offsets_of(shape, 0).1 == corner_offsets_of(shape, 1).1,
        corner_offsets_of(shape, 1).0 == corner_offsets_of(shape, 2).0,
        corner_offsets_of(shape, 2).1 == corner_offsets_of(shape, 3).1,
        corner_offsets_of(shape, 3).0 == corner_offsets_of(shape, 0).0,
{
}

proof fn lemma_scaled_cases(offset: Offset, numerator: int, denominator: int)
    ensures
        offset.halves == 1 && offset.fills == 0 ==> offset.scaled(numerator, denominator)
            == denominator,
        offset.halves == -1 && offset.fills == 0 ==> offset.scaled(numerator, denominator)
            == -denominator,
        offset.halves == -1 && offset.fills == 1 ==> offset.scaled(numerator, denominator) == 2
            * numerator - denominator,
        offset.halves == 1 && offset.fills == -1 ==> offset.scaled(numerator, denominator)
            == denominator - 2 * numerator,
{
    let halves = offset.halves as int;
    let fills = offset.fills as int;
    assert(halves == 1 ==> halves * denominator == denominator) by (nonlinear_arith);
    assert(halves == -1 ==> halves * denominator == -denominator) by (nonlinear_arith);
    assert(fills == 0 ==> 2 * fills * numerator == 0) by (nonlinear_arith);
    assert(fills == 1 ==> 2 * fills * numerator == 2 * numerator) by (nonlinear_arith);
    assert(fills == -1 ==> 2 * fills * numerator == -2 * numerator) by (nonlinear_arith);
}

/// For a fill fraction `numerator / denominator` between 0 and 1, the
/// outline lies inside the cell, its sides do not collapse unless the fill
/// fraction is 0, and it has the extent of its shape: a block fills the
/// cell; a vertical bar starts at the cell's left edge and is the fill
/// fraction of a cell wide; a horizontal strip ends at the cell's bottom edge
/// and is the fill fraction of a cell high.
pub proof fn lemma_outline_extent(shape: CursorShape, numerator: int, denominator: int)
    requires
        0 <= numerator <= denominator,
        0 < denominator,
    ensures
        ({
            let left = corner_offsets_of(shape, 0).0.scaled(numerator, denominator);
            let right = corner_offsets_of(shape, 1).0.scaled(numerator, denominator);
            let top = corner_offsets_of(shape, 0).1.scaled(numerator, denominator);
            let bottom = corner_offsets_of(shape, 2).1.scaled(numerator, denominator);
            &&& -denominator <= left <= right <= denominator
            &&& -denominator <= top <= bottom <= denominator
            &&& match shape {
                CursorShape::Block => left == -denominator && right == denominator && top
                    == -denominator && bottom == denominator,
                CursorShape::Vertical => left == -denominator && right - left == 2 * numerator
                    && top == -denominator && bottom == denominator,
                CursorShape::Horizontal => left == -denominator && right == denominator && bottom
                    == denominator && bottom - top == 2 * numerator,
            }
        }),
{
    lemma_scaled_cases(corner_offsets_of(shape, 0).0, numerator, denominator);
    lemma_scaled_cases(corner_offsets_of(shape, 1).0, numerator, denominator);
    lemma_scaled_cases(corner_offsets_of(shape, 0).1, numerator, denominator);
    lemma_scaled_cases(corner_offsets_of(shape, 2).1, numerator, denominator);
}

/// One corner of the cursor's outline: where it is now, in pixels, and
/// where it belongs relative to the centre of the cursor's cell.
#[derive(Debug)]
pub struct Corner<P> {
    pub current_position: P,
    pub relative_position: (Offset, Offset),
}

impl<P> Corner<P> {
    /// A corner that rests at `current_position`.
    pub fn new(relative_position: (Offset, Offset), current_position: P) -> (corner: Corner<P>)
        ensures
            corner.relative_position == relative_position,
            corner.current_position == current_position,
    {
        Corner { current_position, relative_position }
    }
}

/// The four corners of the cursor, in outline order.
pub struct CursorRenderer<P> {
    pub corners: Vec<Corner<P>>,
}

impl<P: Copy> CursorRenderer<P> {
    /// There are exactly four corners.
    pub open spec fn wf(&self) -> bool {
        self.corners@.len() == 4
    }

    /// Whether the corners sit where the outline of `shape` has them.
    pub open spec fn has_shape(&self, shape: CursorShape) -> bool {
        forall|index: int|
            0 <= index < self.corners@.len() ==> (#[trigger] self.corners@[index]).relative_position
                == corner_offsets_of(shape, index)
    }

    /// A block cursor with all four corners at rest at `origin`.
    pub fn new(origin: P) -> (renderer: CursorRenderer<P>)
        ensures
            renderer.wf(),
            renderer.has_shape(CursorShape::Block),
            forall|index: int|
                0 <= index < 4 ==> (#[trigger] renderer.corners@[index]).current_position == origin,
    {
        let mut corners: Vec<Corner<P>> = Vec::new();
        let mut index: usize = 0;
        while index < 4
            invariant
                index <= 4,
                corners@.len() == index,
                forall|k: int|
                    0 <= k < index ==> (#[trigger] corners@[k]).relative_position
                        == corner_offsets_of(CursorShape::Block, k) && corners@[k].current_position
                        == origin,
            decreases 4 - index,
        {
            corners.push(Corner::new(corner_offsets(CursorShape::Block, index), origin));
            index += 1;
        }
        CursorRenderer { corners }
    }

    /// Gives the cursor the outline of `shape`. Every corner stays where it
    /// is: only the place it belongs to changes, so that motion goes on from
    /// wherever the cursor was.
    pub fn set_cursor_shape(&mut self, cursor_shape: CursorShape)
        requires
            old(self).wf(),
        ensures
            final(self).wf(),
            final(self).has_shape(cursor_shape),
            forall|index: int|
                0 <= index < 4 ==> (#[trigger] final(self).corners@[index]).current_position == old(
                    self,
                ).corners@[index].current_position,
    {
        let mut index: usize = 0;
        while index < 4
            invariant
                index <= 4,
                self.corners@.len() == 4,
                forall|k: int|
                    0 <= k < 4 ==> (#[trigger] self.corners@[k]).current_position == old(
                        self,
                    ).corners@[k].current_position,
                forall|k: int|
                    0 <= k < index ==> (#[trigger] self.corners@[k]).relative_position
                        == corner_offsets_of(cursor_shape, k),
            decreases 4 - index,
        {
            let current_position = self.corners[index].current_position;
            self.corners.set(
                index,
                Corner::new(corner_offsets(cursor_shape, index), current_position),
            );
            index += 1;
        }
    }
}

} // verus!
