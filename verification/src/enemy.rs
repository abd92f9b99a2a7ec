//! An enemy: a rectangle that wanders the grid one step at a time, at its own
//! cadence, and never onto a cell that something else occupies.

use crate::cellrect::{CellRect, Point2};
use crate::dice::gen_range;
use crate::direction::MovingDir;
use crate::grid::{blocked, in_grid, is_blocked, spec_in_grid, CELLCOLS, CELLROWS};
use vstd::prelude::*;

verus! {

/// The number of ticks between two steps of an enemy.
pub const ENEMY_MOVINGRATE: u8 = 150;

/// An enemy and its tick counter.
#[derive(Clone, Copy, Debug, PartialEq, Eq, Structural)]
pub struct Enemy {
    pub rect: CellRect,
    /// The number of ticks per step.
    pub movingrate: u8,
    /// The number of ticks so far.
    pub update_count: u32,
}

impl Enemy {
    /// An enemy as it enters the game at `pos`: two cells wide and high, with
    /// the usual cadence and no tick behind it.
    pub open spec fn spec_with_position(pos: Point2) -> Enemy {
        Enemy {
            rect: CellRect { pos, w: 2, h: 2 },
            movingrate: ENEMY_MOVINGRATE,
            update_count: 0,
        }
    }

    /// Where the enemy would be after a step in direction `d`.
    pub open spec fn candidate(self, d: MovingDir) -> CellRect {
        CellRect { pos: d.spec_advance(self.rect.pos), w: self.rect.w, h: self.rect.h }
    }

    /// Whether a step in direction `d` is allowed: the enemy stays on the
    /// grid and overlaps nothing in `occupied`, which holds the rectangles of
    /// everything but the enemy itself.
    pub open spec fn allowed(self, d: MovingDir, occupied: Seq<CellRect>) -> bool {
        spec_in_grid(self.candidate(d)) && !blocked(occupied, self.candidate(d))
    }

    /// Whether a step in any of the four directions has coordinates that an
    /// `i32` holds.
    pub open spec fn can_look(self) -> bool {
        i32::MIN < self.rect.pos.x < i32::MAX && i32::MIN < self.rect.pos.y < i32::MAX
    }

    /// Whether the next tick is a step.
    pub open spec fn moves_now(self) -> bool {
        self.update_count as int % self.movingrate as int == 0
    }

    /// What a tick needs: a cadence and room in the tick counter.
    pub open spec fn can_tick(self) -> bool {
        self.movingrate > 0 && self.update_count < u32::MAX
    }

    /// The enemy after a tick that was handed the verdict `can_move` on the
    /// position `new_pos`: it goes there on a step that was allowed and stays
    /// otherwise.
    pub open spec fn applied(self, can_move: bool, new_pos: Point2) -> Enemy {
        Enemy {
            rect: if self.moves_now() && can_move {
                CellRect { pos: new_pos, ..self.rect }
            } else {
                self.rect
            },
            update_count: (self.update_count + 1) as u32,
            ..self
        }
    }

    /// The enemy after an attempt to step in direction `d`, whatever the cadence.
    pub open spec fn moved(self, d: MovingDir, occupied: Seq<CellRect>) -> Enemy {
        if self.allowed(d, occupied) {
            Enemy { rect: self.candidate(d), ..self }
        } else {
            self
        }
    }

    /// An enemy as it enters the game at `pos`.
    #[verifier::when_used_as_spec(spec_with_position)]
    pub fn with_position(pos: Point2) -> (e: Enemy)
        ensures
            e == Enemy::spec_with_position(pos),
    {
        Enemy { rect: CellRect { pos, w: 2, h: 2 }, movingrate: ENEMY_MOVINGRATE, update_count: 0 }
    }

    /// An enemy that enters the game at a cell of the grid drawn at random.
    pub fn new() -> (e: Enemy)
        ensures
            exists|pos: Point2|
                0 <= pos.x < CELLCOLS && 0 <= pos.y < CELLROWS && e == Enemy::spec_with_position(
                    pos,
                ),
    {
        let x: i32 = gen_range(0, CELLCOLS);
        let y: i32 = gen_range(0, CELLROWS);
        Enemy::with_position(Point2 { x, y })
    }

    /// The verdict on a step in direction `dir` against the snapshot
    /// `occupied_rects`, and the position that the step leads to.
    pub fn move_info(&self, dir: MovingDir, occupied_rects: &[CellRect]) -> (r: (bool, Point2))
        requires
            dir.fits(self.rect.pos),
        ensures
            r.0 == self.allowed(dir, occupied_rects@),
            r.1 == dir.spec_advance(self.rect.pos),
    {
        let newpos = dir.advance(self.rect.pos);
        let target = CellRect { pos: newpos, w: self.rect.w, h: self.rect.h };
        if !in_grid(&target) {
            return (false, newpos);
        }
        if is_blocked(occupied_rects, &target) {
            return (false, newpos);
        }
        (true, newpos)
    }

    /// Picks a direction at random and gives the verdict on a step that way
    /// against the snapshot `occupied_rects`, with the position that the step
    /// leads to. The snapshot is taken once per tick, before any enemy moves,
    /// and leaves out the enemy's own rectangle.
    pub fn update_info(&self, occupied_rects: &[CellRect]) -> (r: (bool, Point2))
        requires
            self.can_look(),
        ensures
            exists|d: MovingDir|
                r.0 == self.allowed(d, occupied_rects@) && r.1 == d.spec_advance(self.rect.pos),
    {
        let d = MovingDir::random();
        let r = self.move_info(d, occupied_rects);
        assert(r.0 == self.allowed(d, occupied_rects@) && r.1 == d.spec_advance(self.rect.pos));
        r
    }

    /// One tick: on a step, goes to `new_pos` if `can_move` and stays
    /// otherwise; counts the tick either way.
    pub fn update(&mut self, can_move: bool, new_pos: Point2)
        requires
            old(self).can_tick(),
        ensures
            *final(self) == old(self).applied(can_move, new_pos),
    {
        if self.update_count % (self.movingrate as u32) == 0 {
            if can_move {
                self.rect.pos = new_pos;
            }
        }
        self.update_count += 1;
    }

    /// Whether the enemy overlaps `rect`.
    pub fn overlapping(&self, rect: &CellRect) -> (r: bool)
        ensures
            r == rect.overlaps(self.rect),
    {
        rect.overlapping(&self.rect)
    }

    /// Steps in direction `dir` at once if the step is allowed against the
    /// snapshot `occupied_rects`, and stays otherwise.
    pub fn move_in_dir(&mut self, dir: MovingDir, occupied_rects: &[CellRect])
        requires
            dir.fits(old(self).rect.pos),
        ensures
            *final(self) == old(self).moved(dir, occupied_rects@),
    {
        let info = self.move_info(dir, occupied_rects);
        if info.0 {
            self.rect.pos = info.1;
        }
    }
}

/// A step onto a cell that the snapshot holds is refused, and the tick that
/// is handed the refusal leaves the enemy where it is.
pub proof fn lemma_occupied_target_is_refused(
    e: Enemy,
    d: MovingDir,
    occupied: Seq<CellRect>,
    i: int,
)
    requires
        0 <= i < occupied.len(),
        occupied[i].overlaps(e.candidate(d)),
    ensures
        !e.allowed(d, occupied),
        e.applied(e.allowed(d, occupied), d.spec_advance(e.rect.pos)).rect == e.rect,
        e.moved(d, occupied) == e,
{
}

/// A step that is allowed ends on the grid and clear of everything in the
/// snapshot; a tick moves the enemy only on its cadence, only when allowed,
/// and never changes its size.
pub proof fn lemma_tick_moves_only_when_allowed(
    e: Enemy,
    d: MovingDir,
    occupied: Seq<CellRect>,
)
    ensures
        ({
            let after = e.applied(e.allowed(d, occupied), d.spec_advance(e.rect.pos));
            &&& after.rect == e.rect || (after.rect == e.candidate(d) && e.moves_now()
                && spec_in_grid(after.rect) && !blocked(occupied, after.rect))
            &&& after.rect.w == e.rect.w
            &&& after.rect.h == e.rect.h
            &&& after.movingrate == e.movingrate
        }),
{
}

} // verus!
