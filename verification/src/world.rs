//! The game as a whole: the snake, the enemies, the food and the scores, and
//! the tick that moves them all.

use crate::cellrect::{CellRect, Point2};
use crate::dice::gen_range;
use crate::direction::MovingDir;
use crate::enemy::Enemy;
use crate::grid::{
    blocked, first_free_cell, free_in, in_grid, is_blocked, lemma_blocked_concat, spec_in_grid,
    CELLCOLS, CELLROWS,
};
use crate::scores::{descending, record_score, records};
use crate::snake::{Snake, SnakeView};
use vstd::prelude::*;

verus! {

/// The most enemies that the grid ever holds.
pub const ENEMY_CAP: usize = 10;

/// The number of outcomes of the draw that decides on a new enemy.
pub const SPAWN_ODDS: i32 = 10000;

/// Out of `SPAWN_ODDS` ticks, the number on which a game tries to let a new
/// enemy in.
pub const ENEMY_SPAWN_RATE: i32 = 3;

/// The number of random placements tried before a search takes over or the
/// placement is given up.
pub const PLACEMENT_TRIES: u32 = 64;

/// The state of a game.
pub struct MainState {
    pub snake: Snake,
    pub enemies: Vec<Enemy>,
    /// The cell that holds the food.
    pub food: Point2,
    /// The lengths at which earlier snakes died, longest first, each once.
    pub scores: Vec<u64>,
    /// Out of `SPAWN_ODDS` ticks, the number on which a new enemy is tried.
    pub enemy_spawn_rate: i32,
}

/// The state of a game as a mathematical value.
pub struct MainStateView {
    pub snake: SnakeView,
    pub enemies: Seq<Enemy>,
    pub food: Point2,
    pub scores: Seq<u64>,
    pub enemy_spawn_rate: i32,
}

impl View for MainState {
    type V = MainStateView;

    open spec fn view(&self) -> MainStateView {
        MainStateView {
            snake: self.snake@,
            enemies: self.enemies@,
            food: self.food,
            scores: self.scores@,
            enemy_spawn_rate: self.enemy_spawn_rate,
        }
    }
}

/// The rectangles of a row of enemies, in their order.
pub open spec fn enemy_rects(enemies: Seq<Enemy>) -> Seq<CellRect> {
    Seq::new(enemies.len(), |i: int| enemies[i].rect)
}

impl MainStateView {
    /// Everything that occupies cells: the enemies, then the snake from head
    /// to tail.
    pub open spec fn snapshot(self) -> Seq<CellRect> {
        enemy_rects(self.enemies) + self.snake.parts
    }

    /// Whether `p` is a cell of the grid that neither the snake nor an enemy
    /// occupies.
    pub open spec fn cell_free(self, p: Point2) -> bool {
        free_in(self.snapshot(), p)
    }

    /// Whether no cell of the grid is free.
    pub open spec fn full(self) -> bool {
        forall|q: Point2| !(#[trigger] self.cell_free(q))
    }

    /// What every game keeps: the snake has a head, the scores are in order,
    /// and each enemy has a size, a cadence and room to look around.
    pub open spec fn wf(self) -> bool {
        &&& self.snake.wf()
        &&& descending(self.scores)
        &&& forall|i: int|
            0 <= i < self.enemies.len() ==> (#[trigger] self.enemies[i]).rect.wf()
                && self.enemies[i].movingrate > 0 && self.enemies[i].can_look()
    }

    /// What a tick needs beyond that: room in every tick counter, and for
    /// the snake's next head coordinates that an `i32` holds.
    pub open spec fn can_tick(self) -> bool {
        &&& self.wf()
        &&& self.snake.can_tick()
        &&& forall|i: int| 0 <= i < self.enemies.len() ==> (#[trigger] self.enemies[i]).can_tick()
    }

    /// The game as it starts, with the food and the first enemy at the
    /// positions given.
    pub open spec fn starting(food: Point2, enemy_pos: Point2) -> MainStateView {
        MainStateView {
            snake: SnakeView::initial(),
            enemies: seq![Enemy::spec_with_position(enemy_pos)],
            food,
            scores: Seq::empty(),
            enemy_spawn_rate: ENEMY_SPAWN_RATE,
        }
    }

    /// Whether this is a game as it opens: a fresh snake, no score, at most
    /// one enemy, which stands on a cell of the grid clear of the snake, and
    /// the food on a free cell.
    pub open spec fn opening(self) -> bool {
        &&& self.snake == SnakeView::initial()
        &&& self.scores.len() == 0
        &&& self.enemy_spawn_rate == ENEMY_SPAWN_RATE
        &&& self.enemies.len() <= 1
        &&& self.enemies.len() == 1 ==> {
            &&& self.enemies[0] == Enemy::spec_with_position(self.enemies[0].rect.pos)
            &&& spec_in_grid(CellRect::spec_cell(self.enemies[0].rect.pos))
            &&& !self.snake.overlaps(self.enemies[0].rect)
        }
        &&& self.cell_free(self.food)
    }

    /// Whether this is the game `before` after every enemy has had its tick:
    /// each looked in some direction at the one snapshot taken beforehand,
    /// less its own rectangle. Nothing but the enemies has changed.
    pub open spec fn enemies_moved(self, before: MainStateView) -> bool {
        &&& self == MainStateView { enemies: self.enemies, ..before }
        &&& self.enemies.len() == before.enemies.len()
        &&& forall|i: int|
            0 <= i < before.enemies.len() ==> ticked(
                before.enemies[i],
                before.snapshot().remove(i),
                #[trigger] self.enemies[i],
            )
    }

    /// Whether this is the game `before` after food that an enemy has
    /// reached was put down anew; without such an enemy nothing changes.
    pub open spec fn food_rescued(self, before: MainStateView) -> bool {
        if blocked(enemy_rects(before.enemies), CellRect::spec_cell(before.food)) {
            self.food_placed(before)
        } else {
            self == before
        }
    }

    /// Whether this is the game `before` after the state of the snake was
    /// acted on: a lost game is restarted; else a snake whose head is on the
    /// food is told to grow, and the food is put down anew; else nothing changes.
    pub open spec fn resolved(self, before: MainStateView) -> bool {
        if before.lost() {
            self.restarted(before)
        } else if before.snake.head().overlaps(CellRect::spec_cell(before.food)) {
            self.food_placed(MainStateView { snake: before.snake.grown(), ..before })
        } else {
            self == before
        }
    }

    /// Whether this is the game `before` after the chance of a new enemy:
    /// nothing has changed, or one enemy has entered, which takes a spawn
    /// rate above zero and fewer enemies than the cap.
    pub open spec fn enemy_let_in(self, before: MainStateView) -> bool {
        self == before || (self.spawned(before) && before.enemies.len() < ENEMY_CAP
            && before.enemy_spawn_rate > 0)
    }

    /// The course of one tick from `before` to `after`, by way of the game
    /// after the snake and the enemies have moved, after the food was taken
    /// from under the enemies, and after the state of the snake was acted on.
    /// The snake ticks first; the enemies then look at a snapshot that holds
    /// the snake as it is after its tick.
    pub open spec fn tick_through(
        before: MainStateView,
        moved: MainStateView,
        fed: MainStateView,
        settled: MainStateView,
        after: MainStateView,
    ) -> bool {
        &&& moved.enemies_moved(MainStateView { snake: before.snake.tick(), ..before })
        &&& fed.food_rescued(moved)
        &&& settled.resolved(fed)
        &&& after.enemy_let_in(settled)
    }

    /// Whether this is the game one tick after `before`, whatever chance
    /// decided on the way.
    pub open spec fn follows(self, before: MainStateView) -> bool {
        exists|moved: MainStateView, fed: MainStateView, settled: MainStateView| #[trigger]
            MainStateView::tick_through(before, moved, fed, settled, self)
    }

    /// What a tick from `before` comes to, seen from outside.
    ///
    /// A snake that ran into itself or left the grid is lost, and so may be
    /// one that an enemy reached. After a loss a fresh snake stands at the
    /// start, the length of the dead one is recorded, and at most one enemy,
    /// a new one, is on the grid. Otherwise the snake is the ticked one, with
    /// growth pending if it ate; the scores are as before; and the enemies
    /// are the ticked ones, with at most one more behind them where the cap
    /// allows it.
    pub open spec fn outcome(self, before: MainStateView) -> bool {
        let s1 = before.snake.tick();
        let mid = MainStateView { snake: s1, ..before };
        &&& self.enemy_spawn_rate == before.enemy_spawn_rate
        &&& if self.snake == SnakeView::initial() {
            &&& descending(self.scores)
            &&& records(before.scores, s1.parts.len() as u64, self.scores)
            &&& self.enemies.len() <= 1
        } else {
            &&& !s1.self_colliding()
            &&& !s1.out_of_bounds(0, 0, CELLCOLS - 1, CELLROWS - 1)
            &&& self.snake == s1 || self.snake == s1.grown()
            &&& self.scores == before.scores
            &&& before.enemies.len() <= self.enemies.len() <= before.enemies.len() + 1
            &&& self.enemies.len() > before.enemies.len() ==> before.enemies.len() < ENEMY_CAP
            &&& forall|i: int|
                0 <= i < before.enemies.len() ==> ticked(
                    before.enemies[i],
                    mid.snapshot().remove(i),
                    #[trigger] self.enemies[i],
                )
        }
    }

    /// Whether an enemy may enter the game as the rectangle `r`: it lies on
    /// the grid and overlaps neither the snake, nor an enemy, nor the food.
    pub open spec fn spawn_free(self, r: CellRect) -> bool {
        &&& spec_in_grid(r)
        &&& !blocked(self.snapshot(), r)
        &&& !r.overlaps(CellRect::spec_cell(self.food))
    }

    /// Whether an enemy of width `w` and height `h` may enter the game at
    /// the given place of the given side: the place lies within the side's
    /// span, and the enemy would overlap nothing there.
    pub open spec fn edge_place_free(self, side: MovingDir, along: i32, w: i32, h: i32) -> bool {
        &&& 0 <= along < spec_edge_span(side, w, h)
        &&& self.spawn_free(CellRect { pos: spec_edge_position(side, along, w, h), w, h })
    }

    /// Whether an enemy of width `w` and height `h` may enter the game at
    /// some place of some side.
    pub open spec fn has_edge_place(self, w: i32, h: i32) -> bool {
        exists|side: MovingDir, along: i32| #[trigger] self.edge_place_free(side, along, w, h)
    }

    /// Whether the game as it is with one more enemy, which entered at a
    /// side of the grid where it overlaps nothing.
    pub open spec fn spawned(self, before: MainStateView) -> bool {
        exists|p: Point2|
            {
                &&& self == MainStateView {
                    enemies: before.enemies.push(#[trigger] Enemy::spec_with_position(p)),
                    ..before
                }
                &&& before.spawn_free(Enemy::spec_with_position(p).rect)
                &&& on_edge(Enemy::spec_with_position(p).rect)
            }
    }

    /// Whether the draw `roll` calls for a new enemy: it falls below the
    /// spawn rate, and the grid holds fewer enemies than it may.
    pub open spec fn spawn_due(self, roll: i32) -> bool {
        roll < self.enemy_spawn_rate && self.enemies.len() < ENEMY_CAP
    }

    /// Whether the snake has died: it ran into itself, left the grid, or an
    /// enemy sits on its head.
    pub open spec fn lost(self) -> bool {
        ||| self.snake.self_colliding()
        ||| self.snake.out_of_bounds(0, 0, CELLCOLS - 1, CELLROWS - 1)
        ||| blocked(enemy_rects(self.enemies), CellRect::spec_cell(self.snake.head().pos))
    }

    /// Whether this is the game after a loss in the game `before`: the length
    /// of the dead snake is recorded, a fresh snake stands at the start, no
    /// enemy is left, and the food has been put down anew.
    pub open spec fn restarted(self, before: MainStateView) -> bool {
        &&& descending(self.scores)
        &&& records(before.scores, before.snake.parts.len() as u64, self.scores)
        &&& self.food_placed(
            MainStateView {
                snake: SnakeView::initial(),
                enemies: Seq::empty(),
                scores: self.scores,
                ..before
            },
        )
    }

    /// Whether the food has been put down properly in a game that was
    /// `before`: nothing but the food has changed, and the food lies on a cell
    /// that was free, or stays where it was because no cell was free.
    pub open spec fn food_placed(self, before: MainStateView) -> bool {
        &&& self == MainStateView { food: self.food, ..before }
        &&& before.cell_free(self.food) || (self.food == before.food && before.full())
    }
}

/// The number of places along a side of the grid at which a rectangle of
/// width `w` and height `h` fits.
pub open spec fn spec_edge_span(side: MovingDir, w: i32, h: i32) -> int {
    match side {
        MovingDir::WEST | MovingDir::EAST => CELLROWS + 1 - h,
        MovingDir::NORTH | MovingDir::SOUTH => CELLCOLS + 1 - w,
    }
}

/// The position of a rectangle of width `w` and height `h` that touches the
/// given side of the grid from inside, `along` cells from the side's start.
pub open spec fn spec_edge_position(side: MovingDir, along: i32, w: i32, h: i32) -> Point2 {
    match side {
        MovingDir::WEST => Point2 { x: 0, y: along },
        MovingDir::EAST => Point2 { x: (CELLCOLS - w) as i32, y: along },
        MovingDir::NORTH => Point2 { x: along, y: 0 },
        MovingDir::SOUTH => Point2 { x: along, y: (CELLROWS - h) as i32 },
    }
}

/// The order in which a search goes through the sides: west, east, north, south.
pub open spec fn side_rank(side: MovingDir) -> int {
    match side {
        MovingDir::WEST => 0,
        MovingDir::EAST => 1,
        MovingDir::NORTH => 2,
        MovingDir::SOUTH => 3,
    }
}

/// Whether a search comes to the place `a2` of the side `s2` before it comes
/// to the place `a1` of the side `s1`.
pub open spec fn place_before(s2: MovingDir, a2: i32, s1: MovingDir, a1: i32) -> bool {
    side_rank(s2) < side_rank(s1) || (s2 == s1 && a2 < a1)
}

/// Whether a rectangle lies on the grid and touches one of its sides.
pub open spec fn on_edge(r: CellRect) -> bool {
    &&& spec_in_grid(r)
    &&& r.pos.x == 0 || r.pos.y == 0 || r.right() == CELLCOLS - 1 || r.bottom() == CELLROWS - 1
}

/// Whether `after` is the enemy `e` one tick later, having looked in some
/// direction at the snapshot `occupied`.
pub open spec fn ticked(e: Enemy, occupied: Seq<CellRect>, after: Enemy) -> bool {
    exists|d: MovingDir|
        after == e.applied(#[trigger] e.allowed(d, occupied), d.spec_advance(e.rect.pos))
}

/// An enemy keeps its size and its cadence over a tick, and stays where an
/// `i32` holds the coordinates of every cell beside it.
pub proof fn lemma_ticked_keeps_shape(e: Enemy, occupied: Seq<CellRect>, after: Enemy)
    requires
        ticked(e, occupied, after),
        e.rect.wf(),
        e.can_look(),
    ensures
        after.rect.w == e.rect.w,
        after.rect.h == e.rect.h,
        after.movingrate == e.movingrate,
        after.can_look(),
{
}

/// A game stays in order when an enemy enters.
pub proof fn lemma_spawn_keeps_wf(before: MainStateView, after: MainStateView)
    requires
        before.wf(),
        after.spawned(before),
    ensures
        after.wf(),
{
    let p = choose|p: Point2|
        {
            &&& after == MainStateView {
                enemies: before.enemies.push(#[trigger] Enemy::spec_with_position(p)),
                ..before
            }
            &&& before.spawn_free(Enemy::spec_with_position(p).rect)
            &&& on_edge(Enemy::spec_with_position(p).rect)
        };
    assert forall|i: int| 0 <= i < after.enemies.len() implies (#[trigger] after.enemies[i]).rect.wf()
        && after.enemies[i].movingrate > 0 && after.enemies[i].can_look() by {
        if i < before.enemies.len() {
            assert(after.enemies[i] == before.enemies[i]);
        }
    }
}

/// A tick keeps a game in order, comes to what `outcome` says, and leaves
/// the snake on the grid.
pub proof fn lemma_tick_outcome(before: MainStateView, after: MainStateView)
    requires
        before.wf(),
        after.follows(before),
    ensures
        after.wf(),
        after.outcome(before),
        !after.snake.out_of_bounds(0, 0, CELLCOLS - 1, CELLROWS - 1),
{
    let (moved, fed, settled) = choose|
        moved: MainStateView,
        fed: MainStateView,
        settled: MainStateView,
    | #[trigger]
        MainStateView::tick_through(before, moved, fed, settled, after);
    let mid = MainStateView { snake: before.snake.tick(), ..before };
    assert forall|i: int| 0 <= i < moved.enemies.len() implies (#[trigger] moved.enemies[i]).rect.wf()
        && moved.enemies[i].movingrate > 0 && moved.enemies[i].can_look() by {
        lemma_ticked_keeps_shape(mid.enemies[i], mid.snapshot().remove(i), moved.enemies[i]);
    }
    assert(moved.wf());
    assert(fed.wf());
    assert(settled.wf());
    if after != settled {
        lemma_spawn_keeps_wf(settled, after);
        let p = choose|p: Point2|
            {
                &&& after == MainStateView {
                    enemies: settled.enemies.push(#[trigger] Enemy::spec_with_position(p)),
                    ..settled
                }
                &&& settled.spawn_free(Enemy::spec_with_position(p).rect)
                &&& on_edge(Enemy::spec_with_position(p).rect)
            };
        assert forall|i: int| 0 <= i < settled.enemies.len() implies #[trigger] after.enemies[i]
            == settled.enemies[i] by {}
    }
}

/// A cell is free exactly when it lies on the grid and neither an enemy nor
/// a part of the snake overlaps it.
pub proof fn lemma_cell_free(v: MainStateView, p: Point2)
    ensures
        v.cell_free(p) <==> {
            &&& spec_in_grid(CellRect::spec_cell(p))
            &&& !blocked(enemy_rects(v.enemies), CellRect::spec_cell(p))
            &&& !v.snake.overlaps(CellRect::spec_cell(p))
        },
{
    lemma_blocked_concat(enemy_rects(v.enemies), v.snake.parts, CellRect::spec_cell(p));
}

/// A fresh snake and one enemy of two by two cells do not fill the grid.
proof fn lemma_opening_has_room(v: MainStateView)
    requires
        v.snake == SnakeView::initial(),
        v.enemies.len() <= 1,
        v.enemies.len() == 1 ==> v.enemies[0].rect.w == 2 && v.enemies[0].rect.h == 2,
    ensures
        !v.full(),
{
    let a = Point2 { x: 5, y: 5 };
    let b = Point2 { x: 10, y: 10 };
    lemma_cell_free(v, a);
    lemma_cell_free(v, b);
    if blocked(enemy_rects(v.enemies), CellRect::spec_cell(a)) {
        assert(v.cell_free(b));
    } else {
        assert(v.cell_free(a));
    }
}

/// Food that was put down where a cell was free lies on the grid, off the
/// snake and off every enemy.
pub proof fn lemma_placed_food_is_clear(before: MainStateView, after: MainStateView)
    requires
        after.food_placed(before),
        !before.full(),
    ensures
        spec_in_grid(CellRect::spec_cell(after.food)),
        !after.snake.overlaps(CellRect::spec_cell(after.food)),
        !blocked(enemy_rects(after.enemies), CellRect::spec_cell(after.food)),
        forall|i: int|
            0 <= i < after.snake.parts.len() ==> (#[trigger] after.snake.parts[i]).pos
                != after.food || !after.snake.parts[i].wf(),
{
    lemma_cell_free(before, after.food);
    assert forall|i: int| 0 <= i < after.snake.parts.len() implies (#[trigger] after.snake.parts[i]).pos
        != after.food || !after.snake.parts[i].wf() by {
        assert(!after.snake.parts[i].overlaps(CellRect::spec_cell(after.food)));
    }
}

/// A fresh snake alone does not fill the grid.
proof fn lemma_fresh_game_has_room(v: MainStateView)
    requires
        v.snake == SnakeView::initial(),
        v.enemies.len() == 0,
    ensures
        !v.full(),
{
    let corner = Point2 { x: 0, y: 0 };
    lemma_cell_free(v, corner);
    assert(v.cell_free(corner));
}

/// A cell that the snake leaves free stays free of it over a tick, unless
/// the head steps onto it.
proof fn lemma_tick_keeps_cell_clear(s: SnakeView, c: CellRect)
    requires
        s.wf(),
        !s.overlaps(c),
        !s.tick().head().overlaps(c),
    ensures
        !s.tick().overlaps(c),
{
    let t = s.tick();
    assert forall|j: int| 0 <= j < t.parts.len() implies !(#[trigger] t.parts[j]).overlaps(c) by {
        if s.moves_now() {
            if j > 0 {
                assert(t.parts[j] == s.parts[j - 1]);
            }
        } else {
            assert(t.parts[j] == s.parts[j]);
        }
    }
}

/// What is taken stays taken when an enemy enters, and the cell of the food
/// stays free.
proof fn lemma_spawn_keeps_food_free(before: MainStateView, after: MainStateView)
    requires
        after.spawned(before),
    ensures
        before.full() ==> after.full(),
        before.cell_free(before.food) ==> after.cell_free(after.food),
{
    let p = choose|p: Point2|
        {
            &&& after == MainStateView {
                enemies: before.enemies.push(#[trigger] Enemy::spec_with_position(p)),
                ..before
            }
            &&& before.spawn_free(Enemy::spec_with_position(p).rect)
            &&& on_edge(Enemy::spec_with_position(p).rect)
        };
    let e = Enemy::spec_with_position(p);
    assert(enemy_rects(after.enemies) =~= enemy_rects(before.enemies) + seq![e.rect]);
    assert forall|q: Point2| #[trigger] after.cell_free(q) implies before.cell_free(q) by {
        let c = CellRect::spec_cell(q);
        lemma_cell_free(after, q);
        lemma_cell_free(before, q);
        lemma_blocked_concat(enemy_rects(before.enemies), seq![e.rect], c);
    }
    if before.cell_free(before.food) {
        let c = CellRect::spec_cell(before.food);
        lemma_cell_free(after, before.food);
        lemma_cell_free(before, before.food);
        lemma_blocked_concat(enemy_rects(before.enemies), seq![e.rect], c);
        assert(!blocked(seq![e.rect], c)) by {
            assert forall|i: int| 0 <= i < seq![e.rect].len() implies !(#[trigger] seq![
                e.rect,
            ][i]).overlaps(c) by {
                assert(seq![e.rect][i] == e.rect);
            }
        }
    }
}

/// Food that lies on a free cell lies on a free cell after a tick as well,
/// unless the tick ends with no free cell on the grid.
pub proof fn lemma_food_stays_free(before: MainStateView, after: MainStateView)
    requires
        before.snake.wf(),
        after.follows(before),
        before.cell_free(before.food),
    ensures
        after.cell_free(after.food) || after.full(),
{
    let (moved, fed, settled) = choose|
        moved: MainStateView,
        fed: MainStateView,
        settled: MainStateView,
    | #[trigger]
        MainStateView::tick_through(before, moved, fed, settled, after);
    let c = CellRect::spec_cell(before.food);
    assert(settled.cell_free(settled.food) || settled.full()) by {
        if fed.lost() {
            let fresh = MainStateView {
                snake: SnakeView::initial(),
                enemies: Seq::empty(),
                scores: settled.scores,
                ..fed
            };
            lemma_fresh_game_has_room(fresh);
            assert(fresh.snapshot() == settled.snapshot());
        } else if fed.snake.head().overlaps(CellRect::spec_cell(fed.food)) {
            let fat = MainStateView { snake: fed.snake.grown(), ..fed };
            assert(fat.snapshot() == settled.snapshot());
            assert(fat.full() ==> settled.full()) by {
                if fat.full() {
                    assert forall|q: Point2| !(#[trigger] settled.cell_free(q)) by {
                        assert(!fat.cell_free(q));
                    }
                }
            }
        } else if blocked(enemy_rects(moved.enemies), c) {
            assert(moved.snapshot() == fed.snapshot());
            assert(moved.full() ==> fed.full()) by {
                if moved.full() {
                    assert forall|q: Point2| !(#[trigger] fed.cell_free(q)) by {
                        assert(!moved.cell_free(q));
                    }
                }
            }
        } else {
            lemma_cell_free(before, before.food);
            lemma_tick_keeps_cell_clear(before.snake, c);
            lemma_cell_free(moved, before.food);
        }
    }
    if after != settled {
        lemma_spawn_keeps_food_free(settled, after);
    }
}

/// A rectangle that fits the grid, put at a place within a side's span,
/// lies on the grid and touches that side.
pub proof fn lemma_edge_place(side: MovingDir, along: i32, w: i32, h: i32)
    requires
        0 < w <= CELLCOLS,
        0 < h <= CELLROWS,
        0 <= along < spec_edge_span(side, w, h),
    ensures
        on_edge(CellRect { pos: spec_edge_position(side, along, w, h), w, h }),
{
}

/// The number of places along a side of the grid at which a rectangle of
/// width `w` and height `h` fits.
pub fn edge_span(side: MovingDir, w: i32, h: i32) -> (n: i32)
    requires
        0 < w <= CELLCOLS,
        0 < h <= CELLROWS,
    ensures
        n == spec_edge_span(side, w, h),
        n > 0,
{
    match side {
        MovingDir::WEST | MovingDir::EAST => CELLROWS + 1 - h,
        MovingDir::NORTH | MovingDir::SOUTH => CELLCOLS + 1 - w,
    }
}

/// The position of a rectangle of width `w` and height `h` that touches the
/// given side of the grid from inside, `along` cells from the side's start.
/// A place below the side's span keeps the rectangle on the grid.
pub fn edge_position(side: MovingDir, along: i32, w: i32, h: i32) -> (p: Point2)
    requires
        0 < w <= CELLCOLS,
        0 < h <= CELLROWS,
    ensures
        p == spec_edge_position(side, along, w, h),
        0 <= along < spec_edge_span(side, w, h) ==> on_edge(CellRect { pos: p, w, h }),
{
    match side {
        MovingDir::WEST => Point2 { x: 0, y: along },
        MovingDir::EAST => Point2 { x: CELLCOLS - w, y: along },
        MovingDir::NORTH => Point2 { x: along, y: 0 },
        MovingDir::SOUTH => Point2 { x: along, y: CELLROWS - h },
    }
}

/// A copy of `cells` that leaves out the rectangle at index `i`.
pub fn without(cells: &[CellRect], i: usize) -> (r: Vec<CellRect>)
    requires
        i < cells.len(),
    ensures
        r@ == cells@.remove(i as int),
{
    let mut r: Vec<CellRect> = Vec::new();
    let mut j: usize = 0;
    while j < cells.len()
        invariant
            j <= cells.len(),
            i < cells.len(),
            r@ == if j <= i {
                cells@.take(j as int)
            } else {
                cells@.take(j as int).remove(i as int)
            },
        decreases cells.len() - j,
    {
        if j != i {
            r.push(cells[j]);
        }
        proof {
            if j < i {
                assert(cells@.take(j + 1) =~= cells@.take(j as int).push(cells@[j as int]));
            } else if j == i {
                assert(cells@.take(j + 1).remove(i as int) =~= cells@.take(j as int));
            } else {
                assert(cells@.take(j + 1).remove(i as int) =~= cells@.take(j as int).remove(
                    i as int,
                ).push(cells@[j as int]));
            }
        }
        j += 1;
    }
    assert(cells@.take(j as int) =~= cells@);
    r
}

impl MainState {
    /// A game as it starts, with the food and the first enemy at the
    /// positions given.
    pub fn starting(food: Point2, enemy_pos: Point2) -> (s: MainState)
        ensures
            s@ == MainStateView::starting(food, enemy_pos),
    {
        let mut enemies: Vec<Enemy> = Vec::new();
        enemies.push(Enemy::with_position(enemy_pos));
        let s = MainState {
            snake: Snake::new(),
            enemies,
            food,
            scores: Vec::new(),
            enemy_spawn_rate: ENEMY_SPAWN_RATE,
        };
        assert(s@.enemies =~= MainStateView::starting(food, enemy_pos).enemies);
        s
    }

    /// A game as it opens. The first enemy stands on a cell drawn at random,
    /// drawn again while it overlaps the snake; after a number of draws the
    /// game opens without an enemy. The food lies on a free cell.
    pub fn new() -> (s: MainState)
        ensures
            s@.opening(),
            s@.can_tick(),
    {
        let origin = Point2 { x: 0, y: 0 };
        let mut s = MainState::starting(origin, MainState::random_position());
        let mut tries: u32 = 0;
        while s.snake.overlapping(&s.enemies[0].rect) && tries < PLACEMENT_TRIES
            invariant
                s@.enemies.len() == 1,
                spec_in_grid(CellRect::spec_cell(s@.enemies[0].rect.pos)),
                s@ == MainStateView::starting(origin, s@.enemies[0].rect.pos),
            decreases PLACEMENT_TRIES - tries,
        {
            let p = MainState::random_position();
            s.enemies.set(0, Enemy::with_position(p));
            assert(s@.enemies =~= MainStateView::starting(origin, p).enemies);
            tries += 1;
        }
        if s.snake.overlapping(&s.enemies[0].rect) {
            s.enemies.clear();
        }
        let ghost placed = s@;
        proof {
            lemma_opening_has_room(placed);
        }
        s.respawn_food();
        assert(s@.snapshot() == placed.snapshot());
        s
    }

    /// A cell of the grid drawn at random.
    pub fn random_position() -> (p: Point2)
        ensures
            0 <= p.x < CELLCOLS,
            0 <= p.y < CELLROWS,
    {
        let x: i32 = gen_range(0, CELLCOLS);
        let y: i32 = gen_range(0, CELLROWS);
        Point2 { x, y }
    }

    /// Appends to `cellsvec` everything that occupies cells: the enemies,
    /// then the snake from head to tail.
    pub fn occupied_cells(&self, cellsvec: Vec<CellRect>) -> (r: Vec<CellRect>)
        ensures
            r@ == cellsvec@ + self@.snapshot(),
    {
        let mut cells = cellsvec;
        let mut i: usize = 0;
        while i < self.enemies.len()
            invariant
                i <= self.enemies.len(),
                cells@ == cellsvec@ + enemy_rects(self.enemies@).take(i as int),
            decreases self.enemies.len() - i,
        {
            cells.push(self.enemies[i].rect);
            assert(enemy_rects(self.enemies@).take(i + 1) =~= enemy_rects(self.enemies@).take(
                i as int,
            ).push(self.enemies@[i as int].rect));
            i += 1;
        }
        assert(enemy_rects(self.enemies@).take(i as int) =~= enemy_rects(self.enemies@));
        let mut j: usize = 0;
        while j < self.snake.parts.len()
            invariant
                j <= self.snake.parts.len(),
                cells@ == cellsvec@ + enemy_rects(self.enemies@) + self.snake.parts@.take(j as int),
            decreases self.snake.parts.len() - j,
        {
            cells.push(self.snake.parts[j]);
            assert(self.snake.parts@.take(j + 1) =~= self.snake.parts@.take(j as int).push(
                self.snake.parts@[j as int],
            ));
            j += 1;
        }
        assert(self.snake.parts@.take(j as int) =~= self.snake.parts@);
        cells
    }

    /// Puts the food on `candidate` if that is a cell of the grid that
    /// neither the snake nor an enemy occupies, and says whether it did.
    pub fn place_food(&mut self, candidate: Point2) -> (placed: bool)
        ensures
            placed == old(self)@.cell_free(candidate),
            final(self)@ == (MainStateView {
                food: if placed {
                    candidate
                } else {
                    old(self).food
                },
                ..old(self)@
            }),
    {
        let target = CellRect::cell(candidate);
        if !in_grid(&target) {
            return false;
        }
        let occupied = self.occupied_cells(Vec::new());
        assert(occupied@ =~= self@.snapshot());
        if is_blocked(occupied.as_slice(), &target) {
            return false;
        }
        self.food = candidate;
        true
    }

    /// Moves the food to a free cell of the grid: one drawn at random if a
    /// few draws find one, else the first free cell found by search. Only
    /// when no cell at all is free does the food stay where it is.
    pub fn respawn_food(&mut self)
        ensures
            final(self)@.food_placed(old(self)@),
    {
        let mut tries: u32 = 0;
        while tries < PLACEMENT_TRIES
            invariant
                self@ == old(self)@,
            decreases PLACEMENT_TRIES - tries,
        {
            let candidate = MainState::random_position();
            if self.place_food(candidate) {
                return ;
            }
            tries += 1;
        }
        let occupied = self.occupied_cells(Vec::new());
        assert(occupied@ =~= self@.snapshot());
        match first_free_cell(occupied.as_slice()) {
            Some(p) => {
                self.food = p;
            },
            None => {},
        }
    }

    /// Whether some enemy overlaps `rect`.
    pub fn enemies_on(&self, rect: &CellRect) -> (r: bool)
        ensures
            r == blocked(enemy_rects(self@.enemies), *rect),
    {
        let mut i: usize = 0;
        while i < self.enemies.len()
            invariant
                i <= self.enemies.len(),
                forall|j: int|
                    0 <= j < i ==> !(#[trigger] enemy_rects(self@.enemies)[j]).overlaps(*rect),
            decreases self.enemies.len() - i,
        {
            let hit = self.enemies[i].overlapping(rect);
            assert(enemy_rects(self@.enemies)[i as int] == self.enemies@[i as int].rect);
            if hit {
                return true;
            }
            i += 1;
        }
        false
    }

    /// Whether the snake has died: it ran into itself, left the grid, or an
    /// enemy sits on its head.
    pub fn is_lost(&self) -> (r: bool)
        requires
            self@.snake.wf(),
        ensures
            r == self@.lost(),
    {
        self.snake.eating_itself() || self.snake.out_of_bounds(0, 0, CELLCOLS - 1, CELLROWS - 1)
            || self.enemies_on(&CellRect::cell(self.snake.parts[0].pos))
    }

    /// Ends a game and starts the next: records the length of the snake as a
    /// score, puts a fresh snake at the start, removes every enemy and puts
    /// the food down anew.
    pub fn lose(&mut self)
        requires
            descending(old(self)@.scores),
        ensures
            final(self)@.restarted(old(self)@),
    {
        let newscore: u64 = self.snake.parts.len() as u64;
        record_score(&mut self.scores, newscore);
        self.snake = Snake::new();
        self.enemies.clear();
        self.respawn_food();
    }

    /// The position at the given place of the given side if an enemy of
    /// width `rectwidth` and height `rectheight` may enter the game there,
    /// and `None` if it would overlap the snake, an enemy or the food.
    pub fn try_edge_spawn(
        &self,
        side: MovingDir,
        along: i32,
        rectwidth: i32,
        rectheight: i32,
    ) -> (r: Option<Point2>)
        requires
            0 < rectwidth <= CELLCOLS,
            0 < rectheight <= CELLROWS,
        ensures
            ({
                let p = spec_edge_position(side, along, rectwidth, rectheight);
                r == if self@.spawn_free(CellRect { pos: p, w: rectwidth, h: rectheight }) {
                    Some(p)
                } else {
                    None
                }
            }),
    {
        let p = edge_position(side, along, rectwidth, rectheight);
        let rect = CellRect { pos: p, w: rectwidth, h: rectheight };
        if !in_grid(&rect) {
            return None;
        }
        let occupied = self.occupied_cells(Vec::new());
        assert(occupied@ =~= self@.snapshot());
        if is_blocked(occupied.as_slice(), &rect) {
            return None;
        }
        if rect.overlapping(&CellRect::cell(self.food)) {
            return None;
        }
        Some(p)
    }

    /// The first place along the given side, from the side's start, where
    /// an enemy of width `rectwidth` and height `rectheight` may enter the
    /// game, or `None` when the side has no such place.
    pub fn first_place_on_side(&self, side: MovingDir, rectwidth: i32, rectheight: i32) -> (r:
        Option<i32>)
        requires
            0 < rectwidth <= CELLCOLS,
            0 < rectheight <= CELLROWS,
        ensures
            match r {
                Some(along) => self@.edge_place_free(side, along, rectwidth, rectheight)
                    && forall|b: i32|
                    b < along ==> !(#[trigger] self@.edge_place_free(
                        side,
                        b,
                        rectwidth,
                        rectheight,
                    )),
                None => forall|b: i32|
                    !(#[trigger] self@.edge_place_free(side, b, rectwidth, rectheight)),
            },
    {
        let span: i32 = edge_span(side, rectwidth, rectheight);
        let mut along: i32 = 0;
        while along < span
            invariant
                0 < rectwidth <= CELLCOLS,
                0 < rectheight <= CELLROWS,
                0 <= along <= span,
                span == spec_edge_span(side, rectwidth, rectheight),
                forall|b: i32|
                    b < along ==> !(#[trigger] self@.edge_place_free(
                        side,
                        b,
                        rectwidth,
                        rectheight,
                    )),
            decreases span - along,
        {
            if self.try_edge_spawn(side, along, rectwidth, rectheight).is_some() {
                return Some(along);
            }
            along += 1;
        }
        None
    }

    /// The first place at a side of the grid where an enemy of width
    /// `rectwidth` and height `rectheight` may enter the game, going through
    /// the sides west, east, north, south and along each from its start;
    /// `None` when no side has such a place.
    pub fn first_edge_place(&self, rectwidth: i32, rectheight: i32) -> (r: Option<
        (MovingDir, i32),
    >)
        requires
            0 < rectwidth <= CELLCOLS,
            0 < rectheight <= CELLROWS,
        ensures
            match r {
                Some((side, along)) => self@.edge_place_free(side, along, rectwidth, rectheight)
                    && forall|s2: MovingDir, a2: i32|
                    place_before(s2, a2, side, along) ==> !(#[trigger] self@.edge_place_free(
                        s2,
                        a2,
                        rectwidth,
                        rectheight,
                    )),
                None => !self@.has_edge_place(rectwidth, rectheight),
            },
    {
        match self.first_place_on_side(MovingDir::WEST, rectwidth, rectheight) {
            Some(along) => {
                return Some((MovingDir::WEST, along));
            },
            None => {},
        }
        match self.first_place_on_side(MovingDir::EAST, rectwidth, rectheight) {
            Some(along) => {
                return Some((MovingDir::EAST, along));
            },
            None => {},
        }
        match self.first_place_on_side(MovingDir::NORTH, rectwidth, rectheight) {
            Some(along) => {
                return Some((MovingDir::NORTH, along));
            },
            None => {},
        }
        match self.first_place_on_side(MovingDir::SOUTH, rectwidth, rectheight) {
            Some(along) => {
                return Some((MovingDir::SOUTH, along));
            },
            None => {},
        }
        assert forall|side: MovingDir, along: i32|
            !(#[trigger] self@.edge_place_free(side, along, rectwidth, rectheight)) by {
            match side {
                MovingDir::WEST => {},
                MovingDir::EAST => {},
                MovingDir::NORTH => {},
                MovingDir::SOUTH => {},
            }
        }
        None
    }

    /// Finds a place at a side of the grid where an enemy of width
    /// `rectwidth` and height `rectheight` may enter the game: draws a side
    /// and a place along it, and draws again while the enemy would overlap
    /// the snake, an enemy or the food. After a number of draws a search
    /// through the sides takes over, so that a place is found whenever there
    /// is one. `None` comes back only when no side has a place.
    pub fn random_edge_valid_rect_spawn_position(&self, rectwidth: i32, rectheight: i32) -> (r:
        Option<Point2>)
        requires
            0 < rectwidth <= CELLCOLS,
            0 < rectheight <= CELLROWS,
        ensures
            r.is_some() == self@.has_edge_place(rectwidth, rectheight),
            match r {
                Some(p) => {
                    &&& exists|side: MovingDir, along: i32|
                        #[trigger] self@.edge_place_free(side, along, rectwidth, rectheight) && p
                            == spec_edge_position(side, along, rectwidth, rectheight)
                    &&& self@.spawn_free(CellRect { pos: p, w: rectwidth, h: rectheight })
                    &&& on_edge(CellRect { pos: p, w: rectwidth, h: rectheight })
                },
                None => true,
            },
    {
        let mut tries: u32 = 0;
        while tries < PLACEMENT_TRIES
            invariant
                0 < rectwidth <= CELLCOLS,
                0 < rectheight <= CELLROWS,
            decreases PLACEMENT_TRIES - tries,
        {
            let side = MovingDir::random();
            let along: i32 = gen_range(0, edge_span(side, rectwidth, rectheight));
            let found = self.try_edge_spawn(side, along, rectwidth, rectheight);
            if found.is_some() {
                proof {
                    lemma_edge_place(side, along, rectwidth, rectheight);
                    assert(self@.edge_place_free(side, along, rectwidth, rectheight));
                }
                return found;
            }
            tries += 1;
        }
        match self.first_edge_place(rectwidth, rectheight) {
            Some((side, along)) => {
                let p = edge_position(side, along, rectwidth, rectheight);
                assert(self@.edge_place_free(side, along, rectwidth, rectheight));
                Some(p)
            },
            None => None,
        }
    }

    /// Lets one more enemy, two cells wide and high, enter the game at a
    /// side of the grid where it overlaps nothing. Where no side has such a
    /// place, nothing changes.
    pub fn spawn_enemy(&mut self)
        ensures
            if old(self)@.has_edge_place(2, 2) {
                final(self)@.spawned(old(self)@)
            } else {
                final(self)@ == old(self)@
            },
    {
        match self.random_edge_valid_rect_spawn_position(2, 2) {
            Some(p) => {
                let en = Enemy::with_position(p);
                self.enemies.push(en);
                assert(self@ == MainStateView {
                    enemies: old(self)@.enemies.push(Enemy::spec_with_position(p)),
                    ..old(self)@
                });
            },
            None => {},
        }
    }

    /// Gives every enemy its tick. One snapshot of all that occupies cells
    /// is taken first; each enemy then looks in a direction drawn at random
    /// at that snapshot less its own rectangle, and steps if its cadence is
    /// reached and the step is allowed.
    pub fn move_enemies(&mut self)
        requires
            forall|i: int|
                0 <= i < old(self)@.enemies.len() ==> (#[trigger] old(self)@.enemies[i]).can_tick()
                    && old(self)@.enemies[i].can_look(),
        ensures
            final(self)@.enemies_moved(old(self)@),
    {
        let snapshot = self.occupied_cells(Vec::new());
        assert(snapshot@ =~= self@.snapshot());
        let n = self.enemies.len();
        let mut i: usize = 0;
        while i < n
            invariant
                i <= n,
                n == self.enemies.len(),
                n == old(self)@.enemies.len(),
                snapshot@ == old(self)@.snapshot(),
                self@ == (MainStateView { enemies: self@.enemies, ..old(self)@ }),
                forall|j: int|
                    0 <= j < i ==> ticked(
                        old(self)@.enemies[j],
                        old(self)@.snapshot().remove(j),
                        #[trigger] self@.enemies[j],
                    ),
                forall|j: int| i <= j < n ==> #[trigger] self@.enemies[j] == old(self)@.enemies[j],
                forall|j: int|
                    0 <= j < n ==> (#[trigger] old(self)@.enemies[j]).can_tick() && old(
                        self,
                    )@.enemies[j].can_look(),
            decreases n - i,
        {
            let others = without(snapshot.as_slice(), i);
            let mut e = self.enemies[i];
            assert(e == old(self)@.enemies[i as int]);
            let info = e.update_info(others.as_slice());
            e.update(info.0, info.1);
            self.enemies.set(i, e);
            i += 1;
        }
    }

    /// One tick of the game: the snake, then the enemies, then what follows
    /// from where they are: food that an enemy reached is put down anew, a
    /// dead snake ends the game and starts the next, a snake on the food
    /// grows, and now and then a new enemy enters.
    pub fn update(&mut self)
        requires
            old(self)@.can_tick(),
        ensures
            final(self)@.wf(),
            final(self)@.follows(old(self)@),
    {
        self.snake.update();
        let ghost ticked_snake = self@;
        assert(ticked_snake == MainStateView { snake: old(self)@.snake.tick(), ..old(self)@ });
        self.move_enemies();
        let ghost moved = self@;
        proof {
            assert forall|i: int| 0 <= i < moved.enemies.len() implies (#[trigger] moved.enemies[i]).rect.wf()
                && moved.enemies[i].movingrate > 0 && moved.enemies[i].can_look() by {
                lemma_ticked_keeps_shape(
                    ticked_snake.enemies[i],
                    ticked_snake.snapshot().remove(i),
                    moved.enemies[i],
                );
            }
        }
        if self.enemies_on(&CellRect::cell(self.food)) {
            self.respawn_food();
        }
        let ghost fed = self@;
        if self.is_lost() {
            self.lose();
        } else if self.snake.colliding_with_food(&CellRect::cell(self.food)) {
            self.snake.grow();
            self.respawn_food();
        }
        let ghost settled = self@;
        assert(settled.wf());
        let roll: i32 = gen_range(0, SPAWN_ODDS);
        if self.spawn_due(roll) {
            self.spawn_enemy();
        }
        proof {
            if self@ != settled {
                lemma_spawn_keeps_wf(settled, self@);
            }
            assert(MainStateView::tick_through(old(self)@, moved, fed, settled, self@));
        }
    }

    /// Whether the draw `roll` calls for a new enemy.
    pub fn spawn_due(&self, roll: i32) -> (r: bool)
        ensures
            r == self@.spawn_due(roll),
    {
        roll < self.enemy_spawn_rate && self.enemies.len() < ENEMY_CAP
    }
}

} // verus!
