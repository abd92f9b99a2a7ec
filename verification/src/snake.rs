//! The snake: an ordered body of cells, head first, that steps across the
//! grid at a cadence, grows when told to, and can run into itself.

use crate::cellrect::{CellRect, Point2};
use crate::direction::MovingDir;
use vstd::prelude::*;

verus! {

/// The snake. `parts` holds the body from head to tail.
pub struct Snake {
    pub parts: Vec<CellRect>,
    /// The direction of the last step taken.
    pub dir: MovingDir,
    /// Set by `grow`; the next step then keeps the tail.
    pub growing: bool,
    /// Whether the last step kept the tail.
    pub was_adding_part: bool,
    /// The direction that the next step will take.
    pub changingdir: MovingDir,
    /// The number of ticks so far.
    pub update_count: u32,
}

/// The snake as a mathematical value.
pub struct SnakeView {
    pub parts: Seq<CellRect>,
    pub dir: MovingDir,
    pub growing: bool,
    pub was_adding_part: bool,
    pub changingdir: MovingDir,
    pub update_count: nat,
}

impl View for Snake {
    type V = SnakeView;

    open spec fn view(&self) -> SnakeView {
        SnakeView {
            parts: self.parts@,
            dir: self.dir,
            growing: self.growing,
            was_adding_part: self.was_adding_part,
            changingdir: self.changingdir,
            update_count: self.update_count as nat,
        }
    }
}

impl SnakeView {
    /// A snake has a head.
    pub open spec fn wf(self) -> bool {
        self.parts.len() > 0
    }

    pub open spec fn head(self) -> CellRect {
        self.parts[0]
    }

    /// The snake as it is when a game starts: three cells in column 1, head
    /// uppermost, about to move east.
    pub open spec fn initial() -> SnakeView {
        SnakeView {
            parts: seq![
                CellRect::spec_cell(Point2 { x: 1, y: 20 }),
                CellRect::spec_cell(Point2 { x: 1, y: 21 }),
                CellRect::spec_cell(Point2 { x: 1, y: 22 }),
            ],
            dir: MovingDir::EAST,
            growing: false,
            was_adding_part: false,
            changingdir: MovingDir::EAST,
            update_count: 0,
        }
    }

    /// The number of ticks per step. Longer snakes step more rarely.
    pub open spec fn cadence(self) -> int {
        self.parts.len() as int / 80 + 17
    }

    /// Whether the next tick is a step.
    pub open spec fn moves_now(self) -> bool {
        self.update_count as int % self.cadence() == 0
    }

    /// The head after the next step: one cell from the present head in the
    /// buffered direction.
    pub open spec fn next_head(self) -> CellRect {
        CellRect::spec_cell(self.changingdir.spec_advance(self.head().pos))
    }

    /// The part of the body that the next step keeps: all of it when growing,
    /// all but the tail otherwise.
    pub open spec fn kept(self) -> Seq<CellRect> {
        if self.growing {
            self.parts
        } else {
            self.parts.drop_last()
        }
    }

    /// What a tick needs: a head, room in the tick counter, and, on a step,
    /// a next head whose coordinates an `i32` holds.
    pub open spec fn can_tick(self) -> bool {
        &&& self.wf()
        &&& self.update_count < u32::MAX
        &&& self.moves_now() ==> self.changingdir.fits(self.head().pos)
    }

    /// The snake after one tick. On a step the buffered direction is
    /// committed, a new head is put in front, and the tail is dropped unless
    /// growth is pending; between steps only the counter moves.
    pub open spec fn tick(self) -> SnakeView {
        if self.moves_now() {
            SnakeView {
                parts: seq![self.next_head()] + self.kept(),
                dir: self.changingdir,
                growing: false,
                was_adding_part: self.growing,
                changingdir: self.changingdir,
                update_count: self.update_count + 1,
            }
        } else {
            SnakeView { update_count: self.update_count + 1, ..self }
        }
    }

    /// The snake after a request to turn towards `d`.
    pub open spec fn turned(self, d: MovingDir) -> SnakeView {
        SnakeView { changingdir: self.dir.turn(d), ..self }
    }

    /// The snake with growth pending.
    pub open spec fn grown(self) -> SnakeView {
        SnakeView { growing: true, ..self }
    }

    /// The head shares its cell with another part of the body.
    pub open spec fn self_colliding(self) -> bool {
        exists|i: int| 1 <= i < self.parts.len() && (#[trigger] self.parts[i]).pos == self.parts[0].pos
    }

    /// Some part lies outside the inclusive bounds given.
    pub open spec fn out_of_bounds(self, left: int, top: int, right: int, bottom: int) -> bool {
        exists|i: int| 0 <= i < self.parts.len() && Self::outside((#[trigger] self.parts[i]).pos, left, top, right, bottom)
    }

    pub open spec fn outside(p: Point2, left: int, top: int, right: int, bottom: int) -> bool {
        p.x < left || p.y < top || p.x > right || p.y > bottom
    }

    /// Some part overlaps `rect`.
    pub open spec fn overlaps(self, rect: CellRect) -> bool {
        exists|i: int| 0 <= i < self.parts.len() && (#[trigger] self.parts[i]).overlaps(rect)
    }
}

/// The direction that a set of held keys asks for: right before up before
/// left before down, and none when no such key is held.
pub open spec fn key_dir(right: bool, up: bool, left: bool, down: bool) -> Option<MovingDir> {
    if right {
        Some(MovingDir::EAST)
    } else if up {
        Some(MovingDir::NORTH)
    } else if left {
        Some(MovingDir::WEST)
    } else if down {
        Some(MovingDir::SOUTH)
    } else {
        None
    }
}

/// Whether a body part sits in a bend: the parts after and before it differ
/// in both coordinates.
pub open spec fn is_bend(nextpart: Point2, prevpart: Point2) -> bool {
    nextpart.x != prevpart.x && nextpart.y != prevpart.y
}

/// The cross product of the vectors from `prevpart` to `nextpart` and from
/// `prevpart` to `part`. Its sign tells to which side the body bends.
pub open spec fn bend_side(nextpart: Point2, part: Point2, prevpart: Point2) -> int {
    (nextpart.x - prevpart.x) * (part.y - prevpart.y) - (nextpart.y - prevpart.y) * (part.x
        - prevpart.x)
}

impl Snake {
    /// A snake as it is when a game starts.
    pub fn new() -> (s: Snake)
        ensures
            s@ == SnakeView::initial(),
            s@.can_tick(),
    {
        let mut parts: Vec<CellRect> = Vec::new();
        parts.push(CellRect::cell(Point2 { x: 1, y: 20 }));
        parts.push(CellRect::cell(Point2 { x: 1, y: 21 }));
        parts.push(CellRect::cell(Point2 { x: 1, y: 22 }));
        let s = Snake {
            parts,
            dir: MovingDir::EAST,
            growing: false,
            was_adding_part: false,
            changingdir: MovingDir::EAST,
            update_count: 0,
        };
        assert(s@.parts =~= SnakeView::initial().parts);
        s
    }

    /// Whether some part lies outside the inclusive bounds given.
    pub fn out_of_bounds(&self, left: i32, top: i32, right: i32, bottom: i32) -> (r: bool)
        ensures
            r == self@.out_of_bounds(left as int, top as int, right as int, bottom as int),
    {
        let mut i: usize = 0;
        while i < self.parts.len()
            invariant
                i <= self.parts.len(),
                forall|j: int|
                    0 <= j < i ==> !SnakeView::outside(
                        (#[trigger] self.parts@[j]).pos,
                        left as int,
                        top as int,
                        right as int,
                        bottom as int,
                    ),
            decreases self.parts.len() - i,
        {
            let p = self.parts[i].pos;
            if p.x < left || p.y < top || p.x > right || p.y > bottom {
                assert(self@.parts[i as int].pos == p);
                return true;
            }
            i += 1;
        }
        false
    }

    /// Whether the head overlaps the food.
    pub fn colliding_with_food(&self, food: &CellRect) -> (r: bool)
        requires
            self@.wf(),
        ensures
            r == self@.head().overlaps(*food),
    {
        self.parts[0].overlapping(food)
    }

    /// Whether the head shares its cell with another part of the body.
    pub fn eating_itself(&self) -> (r: bool)
        requires
            self@.wf(),
        ensures
            r == self@.self_colliding(),
    {
        let head = self.parts[0].pos;
        let mut i: usize = 1;
        while i < self.parts.len()
            invariant
                1 <= i <= self.parts.len(),
                head == self.parts@[0].pos,
                forall|j: int| 1 <= j < i ==> (#[trigger] self.parts@[j]).pos != head,
            decreases self.parts.len() - i,
        {
            if self.parts[i].pos == head {
                assert(self@.parts[i as int].pos == self@.parts[0].pos);
                return true;
            }
            i += 1;
        }
        false
    }

    /// Whether some part overlaps `rect`.
    pub fn overlapping(&self, rect: &CellRect) -> (r: bool)
        ensures
            r == self@.overlaps(*rect),
    {
        let mut i: usize = 0;
        while i < self.parts.len()
            invariant
                i <= self.parts.len(),
                forall|j: int| 0 <= j < i ==> !(#[trigger] self.parts@[j]).overlaps(*rect),
            decreases self.parts.len() - i,
        {
            if self.parts[i].overlapping(rect) {
                assert(self@.parts[i as int].overlaps(*rect));
                return true;
            }
            i += 1;
        }
        false
    }

    /// For the sprite of a body part: whether the part sits in a bend, and by
    /// how many quarter turns the bend sprite is turned further, two when the
    /// body bends to the positive side and one otherwise. A straight part
    /// gets no further turn.
    pub fn angle_rotation_info(nextpart: &Point2, part: &Point2, prevpart: &Point2) -> (r: (
        bool,
        u8,
    ))
        ensures
            r.0 == is_bend(*nextpart, *prevpart),
            r.1 == if !is_bend(*nextpart, *prevpart) {
                0u8
            } else if 0 < bend_side(*nextpart, *part, *prevpart) {
                2u8
            } else {
                1u8
            },
    {
        if nextpart.x != prevpart.x && nextpart.y != prevpart.y {
            let ax: i128 = nextpart.x as i128 - prevpart.x as i128;
            let ay: i128 = nextpart.y as i128 - prevpart.y as i128;
            let bx: i128 = part.x as i128 - prevpart.x as i128;
            let by: i128 = part.y as i128 - prevpart.y as i128;
            assert(-0x1_0000_0000_0000_0000 <= ax * by <= 0x1_0000_0000_0000_0000) by (nonlinear_arith)
                requires
                    -0x1_0000_0000 <= ax <= 0x1_0000_0000,
                    -0x1_0000_0000 <= by <= 0x1_0000_0000,
            ;
            assert(-0x1_0000_0000_0000_0000 <= ay * bx <= 0x1_0000_0000_0000_0000) by (nonlinear_arith)
                requires
                    -0x1_0000_0000 <= ay <= 0x1_0000_0000,
                    -0x1_0000_0000 <= bx <= 0x1_0000_0000,
            ;
            let side: i128 = ax * by - ay * bx;
            if 0 < side {
                (true, 2)
            } else {
                (true, 1)
            }
        } else {
            (false, 0)
        }
    }

    /// Makes the next step keep the tail. Asking twice before that step is
    /// the same as asking once.
    pub fn grow(&mut self)
        ensures
            final(self)@ == old(self)@.grown(),
    {
        self.growing = true;
    }

    /// One tick: a step when the cadence is reached, and one more on the
    /// counter either way.
    pub fn update(&mut self)
        requires
            old(self)@.can_tick(),
        ensures
            final(self)@ == old(self)@.tick(),
    {
        let cadence: u64 = (self.parts.len() as u64) / 80 + 17;
        if (self.update_count as u64) % cadence == 0 {
            self.dir = self.changingdir;
            let newhead = CellRect::cell(self.dir.advance(self.parts[0].pos));
            self.parts.insert(0, newhead);
            if self.growing {
                self.growing = false;
                self.was_adding_part = true;
            } else {
                self.parts.pop();
                self.was_adding_part = false;
            }
            assert(self@.parts =~= old(self)@.tick().parts);
        }
        self.update_count += 1;
    }

    /// Buffers a turn towards `d` for the next step, unless it would reverse
    /// the last step taken. The last request before a step is the one that counts.
    pub fn request_turn(&mut self, d: MovingDir)
        ensures
            final(self)@ == old(self)@.turned(d),
    {
        self.changingdir = self.dir.can_change_dir(d);
    }

    /// Turns the keys that are held into a turn request. With no direction
    /// key held nothing changes.
    pub fn hande_input(&mut self, right: bool, up: bool, left: bool, down: bool)
        ensures
            final(self)@ == match key_dir(right, up, left, down) {
                Some(d) => old(self)@.turned(d),
                None => old(self)@,
            },
    {
        if right {
            self.request_turn(MovingDir::EAST);
        } else if up {
            self.request_turn(MovingDir::NORTH);
        } else if left {
            self.request_turn(MovingDir::WEST);
        } else if down {
            self.request_turn(MovingDir::SOUTH);
        }
    }

    /// The cells that the body occupies, from head to tail.
    pub fn occupied_rects(&self) -> (r: &[CellRect])
        ensures
            r@ == self@.parts,
    {
        self.parts.as_slice()
    }
}

/// A tick changes the length only on a step with growth pending, and then by
/// one; between steps the body and the pending growth stay as they are.
pub proof fn lemma_tick_length(s: SnakeView)
    requires
        s.wf(),
    ensures
        s.tick().wf(),
        !s.moves_now() ==> s.tick().parts == s.parts && s.tick().growing == s.growing,
        s.moves_now() && !s.growing ==> s.tick().parts.len() == s.parts.len(),
        s.moves_now() && s.growing ==> s.tick().parts.len() == s.parts.len() + 1,
        s.moves_now() ==> !s.tick().growing,
{
}

/// On a step every part moves to where the part before it was, the head moves
/// one cell in the buffered direction, and pending growth keeps the old tail
/// as the new tail.
pub proof fn lemma_step_shifts_body(s: SnakeView)
    requires
        s.wf(),
        s.moves_now(),
    ensures
        s.tick().parts[0] == s.next_head(),
        forall|i: int| 1 <= i < s.tick().parts.len() ==> s.tick().parts[i] == s.parts[i - 1],
        s.growing ==> s.tick().parts.last() == s.parts.last(),
{
}

/// A snake whose head shares its cell with another part collides with itself.
pub proof fn lemma_head_on_body_collides(s: SnakeView, i: int)
    requires
        1 <= i < s.parts.len(),
        s.parts[i].pos == s.parts[0].pos,
    ensures
        s.self_colliding(),
{
}

/// A step that puts the head onto a part that the step keeps ends in a
/// collision.
pub proof fn lemma_step_onto_body_collides(s: SnakeView, i: int)
    requires
        s.wf(),
        s.moves_now(),
        0 <= i < s.kept().len(),
        s.kept()[i].pos == s.next_head().pos,
    ensures
        s.tick().self_colliding(),
{
    assert(s.tick().parts[i + 1] == s.kept()[i]);
}

/// A snake with a part in the column left of the grid, or in the column right
/// of it, is out of the bounds of a grid of `cols` columns and `rows` rows.
pub proof fn lemma_part_beside_grid_is_out(s: SnakeView, i: int, cols: int, rows: int)
    requires
        0 <= i < s.parts.len(),
        s.parts[i].pos.x == -1 || s.parts[i].pos.x == cols,
    ensures
        s.out_of_bounds(0, 0, cols - 1, rows - 1),
{
    assert(SnakeView::outside(s.parts[i].pos, 0, 0, cols - 1, rows - 1));
}

} // verus!
