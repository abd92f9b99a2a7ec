//! Cells and axis-aligned rectangles of cells.

use vstd::prelude::*;

verus! {

/// A cell of the grid: column `x`, row `y`. Rows grow downwards.
#[derive(Clone, Copy, Debug, PartialEq, Eq, Structural)]
pub struct Point2 {
    pub x: i32,
    pub y: i32,
}

/// An axis-aligned rectangle of cells. It covers the columns `pos.x ..= pos.x + w - 1`
/// and the rows `pos.y ..= pos.y + h - 1`.
#[derive(Clone, Copy, Debug, PartialEq, Eq, Structural)]
pub struct CellRect {
    pub pos: Point2,
    pub w: i32,
    pub h: i32,
}

impl CellRect {
    /// A rectangle occupies at least one cell.
    pub open spec fn wf(self) -> bool {
        self.w > 0 && self.h > 0
    }

    /// The last column that the rectangle covers.
    pub open spec fn right(self) -> int {
        self.pos.x + self.w - 1
    }

    /// The last row that the rectangle covers.
    pub open spec fn bottom(self) -> int {
        self.pos.y + self.h - 1
    }

    /// Whether the cell in column `x` and row `y` belongs to the rectangle.
    pub open spec fn covers(self, x: int, y: int) -> bool {
        self.pos.x <= x <= self.right() && self.pos.y <= y <= self.bottom()
    }

    /// Two rectangles overlap when their closed spans meet on both axes.
    /// Rectangles that share only an edge cell do overlap.
    pub open spec fn overlaps(self, b: CellRect) -> bool {
        &&& self.pos.x <= b.right()
        &&& b.pos.x <= self.right()
        &&& self.pos.y <= b.bottom()
        &&& b.pos.y <= self.bottom()
    }

    /// Whether the rectangle lies inside the inclusive bounds given.
    pub open spec fn within(self, left: int, top: int, right: int, bottom: int) -> bool {
        left <= self.pos.x && self.right() <= right && top <= self.pos.y && self.bottom() <= bottom
    }

    /// The rectangle of the single cell `pos`.
    pub open spec fn spec_cell(pos: Point2) -> CellRect {
        CellRect { pos, w: 1, h: 1 }
    }

    /// The rectangle of the single cell `pos`.
    #[verifier::when_used_as_spec(spec_cell)]
    pub fn cell(pos: Point2) -> (r: CellRect)
        ensures
            r == CellRect::spec_cell(pos),
    {
        CellRect { pos, w: 1, h: 1 }
    }

    /// Inclusive overlap test.
    pub fn overlapping(&self, b: &CellRect) -> (r: bool)
        ensures
            r == self.overlaps(*b),
    {
        let ax: i64 = self.pos.x as i64;
        let ay: i64 = self.pos.y as i64;
        let bx: i64 = b.pos.x as i64;
        let by: i64 = b.pos.y as i64;
        let a_right: i64 = ax + self.w as i64 - 1;
        let a_bottom: i64 = ay + self.h as i64 - 1;
        let b_right: i64 = bx + b.w as i64 - 1;
        let b_bottom: i64 = by + b.h as i64 - 1;
        !(a_right < bx || a_bottom < by || ax > b_right || ay > b_bottom)
    }

    /// Overlap does not depend on the order of the two rectangles.
    pub proof fn lemma_overlaps_symmetric(a: CellRect, b: CellRect)
        ensures
            a.overlaps(b) == b.overlaps(a),
    {
    }

    /// Two rectangles overlap exactly when some cell belongs to both.
    pub proof fn lemma_overlaps_iff_shared_cell(a: CellRect, b: CellRect)
        requires
            a.wf(),
            b.wf(),
        ensures
            a.overlaps(b) <==> exists|x: int, y: int| a.covers(x, y) && b.covers(x, y),
    {
        if a.overlaps(b) {
            let x: int = if a.pos.x >= b.pos.x { a.pos.x as int } else { b.pos.x as int };
            let y: int = if a.pos.y >= b.pos.y { a.pos.y as int } else { b.pos.y as int };
            assert(a.covers(x, y) && b.covers(x, y));
        }
    }

    /// A one-cell rectangle overlaps another rectangle exactly when its cell belongs to it.
    pub proof fn lemma_cell_overlaps(pos: Point2, b: CellRect)
        ensures
            CellRect::spec_cell(pos).overlaps(b) == b.covers(pos.x as int, pos.y as int),
    {
    }
}

} // verus!
