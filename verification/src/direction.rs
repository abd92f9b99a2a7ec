//! The four directions of movement and the rule for turning.

use crate::cellrect::Point2;
use crate::dice::gen_range;
use vstd::prelude::*;

verus! {

/// A direction of movement on the grid. North is towards row 0.
#[derive(Clone, Copy, Debug, PartialEq, Eq, Structural)]
pub enum MovingDir {
    NORTH,
    EAST,
    SOUTH,
    WEST,
}

impl MovingDir {
    /// The unit step of the direction.
    pub open spec fn vel(self) -> Point2 {
        match self {
            MovingDir::NORTH => Point2 { x: 0i32, y: -1i32 },
            MovingDir::EAST => Point2 { x: 1i32, y: 0i32 },
            MovingDir::SOUTH => Point2 { x: 0i32, y: 1i32 },
            MovingDir::WEST => Point2 { x: -1i32, y: 0i32 },
        }
    }

    /// The direction that points the other way.
    pub open spec fn opposite(self) -> MovingDir {
        match self {
            MovingDir::NORTH => MovingDir::SOUTH,
            MovingDir::EAST => MovingDir::WEST,
            MovingDir::SOUTH => MovingDir::NORTH,
            MovingDir::WEST => MovingDir::EAST,
        }
    }

    /// The direction that results when `newdir` is asked for while moving in
    /// `self`: a reversal is ignored, anything else is taken.
    pub open spec fn turn(self, newdir: MovingDir) -> MovingDir {
        if newdir == self.opposite() {
            self
        } else {
            newdir
        }
    }

    /// Whether the cell one step from `p` has coordinates that an `i32` holds.
    pub open spec fn fits(self, p: Point2) -> bool {
        i32::MIN <= p.x + self.vel().x <= i32::MAX && i32::MIN <= p.y + self.vel().y <= i32::MAX
    }

    /// The cell one step from `p`.
    pub open spec fn spec_advance(self, p: Point2) -> Point2 {
        Point2 { x: (p.x + self.vel().x) as i32, y: (p.y + self.vel().y) as i32 }
    }

    /// The direction that a draw stands for: 0 east, 1 west, 2 north, anything else south.
    pub open spec fn spec_from_roll(n: i32) -> MovingDir {
        if n == 0 {
            MovingDir::EAST
        } else if n == 1 {
            MovingDir::WEST
        } else if n == 2 {
            MovingDir::NORTH
        } else {
            MovingDir::SOUTH
        }
    }

    /// The direction from `prevpart` to `part`, read off the first coordinate
    /// that differs by exactly one; east when none does.
    pub open spec fn spec_part_dir(part: Point2, prevpart: Point2) -> MovingDir {
        if part.x - prevpart.x == 1 {
            MovingDir::EAST
        } else if part.x - prevpart.x == -1 {
            MovingDir::WEST
        } else if part.y - prevpart.y == 1 {
            MovingDir::SOUTH
        } else if part.y - prevpart.y == -1 {
            MovingDir::NORTH
        } else {
            MovingDir::EAST
        }
    }

    /// The unit step of the direction.
    pub fn to_vel(&self) -> (v: Point2)
        ensures
            v == self.vel(),
    {
        match self {
            MovingDir::NORTH => Point2 { x: 0, y: -1 },
            MovingDir::EAST => Point2 { x: 1, y: 0 },
            MovingDir::SOUTH => Point2 { x: 0, y: 1 },
            MovingDir::WEST => Point2 { x: -1, y: 0 },
        }
    }

    /// The cell one step from `p`.
    #[verifier::when_used_as_spec(spec_advance)]
    pub fn advance(self, p: Point2) -> (q: Point2)
        requires
            self.fits(p),
        ensures
            q == self.spec_advance(p),
            q.x == p.x + self.vel().x,
            q.y == p.y + self.vel().y,
    {
        let v = self.to_vel();
        Point2 { x: p.x + v.x, y: p.y + v.y }
    }

    /// Resolves a turn request: returns `self` when `newdir` would reverse
    /// the movement, and `newdir` otherwise.
    pub fn can_change_dir(self, newdir: MovingDir) -> (r: MovingDir)
        ensures
            r == self.turn(newdir),
    {
        match newdir {
            MovingDir::NORTH => match self {
                MovingDir::SOUTH => self,
                _ => newdir,
            },
            MovingDir::EAST => match self {
                MovingDir::WEST => self,
                _ => newdir,
            },
            MovingDir::SOUTH => match self {
                MovingDir::NORTH => self,
                _ => newdir,
            },
            MovingDir::WEST => match self {
                MovingDir::EAST => self,
                _ => newdir,
            },
        }
    }

    /// The rotation of a sprite that faces this direction, in quarter turns
    /// clockwise from north.
    pub fn rotation(&self) -> (q: u8)
        ensures
            q == match *self {
                MovingDir::NORTH => 0u8,
                MovingDir::EAST => 1u8,
                MovingDir::SOUTH => 2u8,
                MovingDir::WEST => 3u8,
            },
    {
        match self {
            MovingDir::NORTH => 0,
            MovingDir::EAST => 1,
            MovingDir::SOUTH => 2,
            MovingDir::WEST => 3,
        }
    }

    /// The direction in which a body part lies, seen from the part before it.
    pub fn part_dir(part: &Point2, prevpart: &Point2) -> (d: MovingDir)
        ensures
            d == MovingDir::spec_part_dir(*part, *prevpart),
    {
        let dx: i64 = part.x as i64 - prevpart.x as i64;
        let dy: i64 = part.y as i64 - prevpart.y as i64;
        if dx == 1 {
            MovingDir::EAST
        } else if dx == -1 {
            MovingDir::WEST
        } else if dy == 1 {
            MovingDir::SOUTH
        } else if dy == -1 {
            MovingDir::NORTH
        } else {
            MovingDir::EAST
        }
    }

    /// The direction that a draw stands for.
    #[verifier::when_used_as_spec(spec_from_roll)]
    pub fn from_roll(n: i32) -> (d: MovingDir)
        ensures
            d == MovingDir::spec_from_roll(n),
    {
        match n {
            0 => MovingDir::EAST,
            1 => MovingDir::WEST,
            2 => MovingDir::NORTH,
            _ => MovingDir::SOUTH,
        }
    }

    /// A direction drawn at random, each of the four from one of four equally
    /// likely draws.
    pub fn random() -> (d: MovingDir)
        ensures
            exists|n: i32| 0 <= n < 4 && d == MovingDir::spec_from_roll(n),
    {
        let n: i32 = gen_range(0, 4);
        MovingDir::from_roll(n)
    }

    /// Reversing twice gives the direction back, and a reversal negates the step.
    pub proof fn lemma_opposite(d: MovingDir)
        ensures
            d.opposite().opposite() == d,
            d.opposite() != d,
            d.opposite().vel().x == -d.vel().x,
            d.opposite().vel().y == -d.vel().y,
    {
    }

    /// A resolved turn never reverses the movement, and every request but a
    /// reversal is granted.
    pub proof fn lemma_turn_never_reverses(current: MovingDir, requested: MovingDir)
        ensures
            current.turn(requested) != current.opposite(),
            requested != current.opposite() ==> current.turn(requested) == requested,
            requested == current.opposite() ==> current.turn(requested) == current,
    {
    }

    /// Every direction is the outcome of some draw below four.
    pub proof fn lemma_every_direction_is_drawn(d: MovingDir)
        ensures
            exists|n: i32| 0 <= n < 4 && d == MovingDir::spec_from_roll(n),
    {
        match d {
            MovingDir::EAST => assert(MovingDir::spec_from_roll(0) == d),
            MovingDir::WEST => assert(MovingDir::spec_from_roll(1) == d),
            MovingDir::NORTH => assert(MovingDir::spec_from_roll(2) == d),
            MovingDir::SOUTH => assert(MovingDir::spec_from_roll(3) == d),
        }
    }

    /// A part that lies one step from the part before it is seen in the
    /// direction of that step.
    pub proof fn lemma_part_dir_of_step(d: MovingDir, p: Point2)
        requires
            d.fits(p),
        ensures
            MovingDir::spec_part_dir(d.spec_advance(p), p) == d,
    {
    }
}

} // verus!
