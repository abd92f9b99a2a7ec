//! The dimensions of the grid, shared by the simulation and by whatever draws it.

use crate::cellrect::{CellRect, Point2};
use vstd::prelude::*;

verus! {

/// The side of a cell on screen, in pixels.
pub const CELLSIZE: i32 = 25;

/// The number of columns of the grid.
pub const CELLCOLS: i32 = 30;

/// The number of rows of the grid.
pub const CELLROWS: i32 = 23;

/// Whether a rectangle lies on the grid with all its cells.
pub open spec fn spec_in_grid(r: CellRect) -> bool {
    r.within(0, 0, CELLCOLS - 1, CELLROWS - 1)
}

/// Whether a rectangle lies on the grid with all its cells.
pub fn in_grid(r: &CellRect) -> (b: bool)
    ensures
        b == spec_in_grid(*r),
{
    let right: i64 = r.pos.x as i64 + r.w as i64 - 1;
    let bottom: i64 = r.pos.y as i64 + r.h as i64 - 1;
    !(r.pos.x < 0 || r.pos.y < 0 || right >= CELLCOLS as i64 || bottom >= CELLROWS as i64)
}

/// Whether some rectangle of `occupied` overlaps `r`.
pub open spec fn blocked(occupied: Seq<CellRect>, r: CellRect) -> bool {
    exists|i: int| 0 <= i < occupied.len() && (#[trigger] occupied[i]).overlaps(r)
}

/// Whether some rectangle of `occupied` overlaps `r`.
pub fn is_blocked(occupied: &[CellRect], r: &CellRect) -> (b: bool)
    ensures
        b == blocked(occupied@, *r),
{
    let mut i: usize = 0;
    while i < occupied.len()
        invariant
            i <= occupied.len(),
            forall|j: int| 0 <= j < i ==> !(#[trigger] occupied@[j]).overlaps(*r),
        decreases occupied.len() - i,
    {
        if occupied[i].overlapping(r) {
            return true;
        }
        i += 1;
    }
    false
}

/// A rectangle is blocked by two lists together exactly when one of them blocks it.
pub proof fn lemma_blocked_concat(a: Seq<CellRect>, b: Seq<CellRect>, r: CellRect)
    ensures
        blocked(a + b, r) <==> (blocked(a, r) || blocked(b, r)),
{
    let ab = a + b;
    if blocked(ab, r) {
        let i = choose|i: int| 0 <= i < ab.len() && (#[trigger] ab[i]).overlaps(r);
        if i < a.len() {
            assert(a[i].overlaps(r));
        } else {
            assert(b[i - a.len()].overlaps(r));
        }
    }
    if blocked(a, r) {
        let i = choose|i: int| 0 <= i < a.len() && (#[trigger] a[i]).overlaps(r);
        assert(ab[i].overlaps(r));
    }
    if blocked(b, r) {
        let i = choose|i: int| 0 <= i < b.len() && (#[trigger] b[i]).overlaps(r);
        assert(ab[i + a.len()].overlaps(r));
    }
}

/// Whether `p` is a cell of the grid that nothing in `occupied` overlaps.
pub open spec fn free_in(occupied: Seq<CellRect>, p: Point2) -> bool {
    spec_in_grid(CellRect::spec_cell(p)) && !blocked(occupied, CellRect::spec_cell(p))
}

/// Whether `q` comes before `p` when the grid is read row by row, each row
/// from the left.
pub open spec fn before(q: Point2, p: Point2) -> bool {
    q.y < p.y || (q.y == p.y && q.x < p.x)
}

/// The first free cell of the grid, read row by row, or `None` when every
/// cell is taken.
pub fn first_free_cell(occupied: &[CellRect]) -> (r: Option<Point2>)
    ensures
        match r {
            Some(p) => free_in(occupied@, p) && forall|q: Point2|
                before(q, p) ==> !(#[trigger] free_in(occupied@, q)),
            None => forall|q: Point2| !(#[trigger] free_in(occupied@, q)),
        },
{
    let mut y: i32 = 0;
    while y < CELLROWS
        invariant
            0 <= y <= CELLROWS,
            forall|q: Point2| q.y < y ==> !(#[trigger] free_in(occupied@, q)),
        decreases CELLROWS - y,
    {
        let mut x: i32 = 0;
        while x < CELLCOLS
            invariant
                0 <= x <= CELLCOLS,
                0 <= y < CELLROWS,
                forall|q: Point2|
                    (q.y < y || (q.y == y && q.x < x)) ==> !(#[trigger] free_in(occupied@, q)),
            decreases CELLCOLS - x,
        {
            let p = Point2 { x, y };
            if !is_blocked(occupied, &CellRect::cell(p)) {
                return Some(p);
            }
            x += 1;
        }
        y += 1;
    }
    None
}

} // verus!
