use rust_snake::cellrect::{CellRect, Point2};
use rust_snake::direction::MovingDir;
use rust_snake::enemy::Enemy;
use rust_snake::grid::{first_free_cell, in_grid, is_blocked, CELLCOLS, CELLROWS, CELLSIZE};
use rust_snake::scores::record_score;
use rust_snake::snake::Snake;
use rust_snake::world::{
    edge_position, edge_span, without, MainState, ENEMY_CAP, ENEMY_SPAWN_RATE, SPAWN_ODDS,
};

fn cell(x: i32, y: i32) -> CellRect {
    CellRect { pos: Point2 { x, y }, w: 1, h: 1 }
}

fn rect(x: i32, y: i32, w: i32, h: i32) -> CellRect {
    CellRect { pos: Point2 { x, y }, w, h }
}

fn pt(x: i32, y: i32) -> Point2 {
    Point2 { x, y }
}

/// A game with no enemy and the food out of the snake's way.
fn quiet_game() -> MainState {
    let mut s = MainState::starting(pt(15, 5), pt(20, 10));
    s.enemies.clear();
    s
}

/// Every cell of the grid but those listed, as the body of a snake.
fn all_cells_but(free: &[(i32, i32)]) -> Vec<CellRect> {
    let mut cells = Vec::new();
    for y in 0..CELLROWS {
        for x in 0..CELLCOLS {
            if !free.contains(&(x, y)) {
                cells.push(cell(x, y));
            }
        }
    }
    cells
}

#[test]
fn grid_dimensions() {
    assert_eq!((CELLCOLS, CELLROWS, CELLSIZE), (30, 23, 25));
    assert_eq!((ENEMY_CAP, ENEMY_SPAWN_RATE, SPAWN_ODDS), (10, 3, 10000));
}

#[test]
fn in_grid_on_the_rim() {
    assert!(in_grid(&cell(0, 0)));
    assert!(in_grid(&cell(29, 22)));
    assert!(in_grid(&rect(28, 21, 2, 2)));
    assert!(in_grid(&rect(0, 0, 30, 23)));
    assert!(!in_grid(&cell(-1, 0)));
    assert!(!in_grid(&cell(0, -1)));
    assert!(!in_grid(&cell(30, 0)));
    assert!(!in_grid(&cell(0, 23)));
    assert!(!in_grid(&rect(29, 21, 2, 2)));
    assert!(!in_grid(&rect(28, 22, 2, 2)));
    assert!(!in_grid(&rect(i32::MAX, 0, i32::MAX, 1)));
}

#[test]
fn blocked_by_any_rect() {
    let occupied = [rect(0, 0, 2, 2), cell(5, 5)];
    assert!(is_blocked(&occupied, &cell(1, 1)));
    assert!(is_blocked(&occupied, &rect(4, 4, 2, 2)));
    assert!(!is_blocked(&occupied, &cell(2, 2)));
    assert!(!is_blocked(&[], &cell(2, 2)));
}

#[test]
fn first_free_cell_reads_row_by_row() {
    assert_eq!(first_free_cell(&[]), Some(pt(0, 0)));
    assert_eq!(first_free_cell(&[cell(0, 0)]), Some(pt(1, 0)));
    assert_eq!(first_free_cell(&[rect(0, 0, 30, 1)]), Some(pt(0, 1)));
    assert_eq!(first_free_cell(&[rect(0, 0, 30, 22), rect(0, 22, 29, 1)]), Some(pt(29, 22)));
    assert_eq!(first_free_cell(&[rect(0, 0, 30, 23)]), None);
    assert_eq!(first_free_cell(&[rect(-5, -5, 100, 100)]), None);
}

#[test]
fn starting_game() {
    let s = MainState::starting(pt(4, 4), pt(20, 10));
    assert_eq!(s.snake.parts, Snake::new().parts);
    assert_eq!(s.enemies, vec![Enemy::with_position(pt(20, 10))]);
    assert_eq!(s.food, pt(4, 4));
    assert!(s.scores.is_empty());
    assert_eq!(s.enemy_spawn_rate, 3);
}

#[test]
fn new_game_opens_in_order() {
    let mut foods = Vec::new();
    let mut with_enemy = 0;
    for _ in 0..200 {
        let s = MainState::new();
        assert_eq!(s.snake.parts, Snake::new().parts);
        assert_eq!(s.snake.update_count, 0);
        assert!(s.scores.is_empty());
        assert_eq!(s.enemy_spawn_rate, 3);
        assert!(s.enemies.len() <= 1);
        for e in &s.enemies {
            with_enemy += 1;
            assert_eq!(*e, Enemy::with_position(e.rect.pos));
            assert!(in_grid(&cell(e.rect.pos.x, e.rect.pos.y)));
            assert!(!s.snake.overlapping(&e.rect));
        }
        let food = cell(s.food.x, s.food.y);
        assert!(in_grid(&food));
        assert!(!s.snake.overlapping(&food));
        assert!(!s.enemies_on(&food));
        if !foods.contains(&s.food) {
            foods.push(s.food);
        }
    }
    assert!(foods.len() > 1);
    assert!(with_enemy > 0);
}

#[test]
fn random_position_stays_on_the_grid() {
    let mut columns = [false; 30];
    let mut rows = [false; 23];
    for _ in 0..5000 {
        let p = MainState::random_position();
        assert!(0 <= p.x && p.x < 30);
        assert!(0 <= p.y && p.y < 23);
        columns[p.x as usize] = true;
        rows[p.y as usize] = true;
    }
    assert!(columns.iter().all(|&c| c));
    assert!(rows.iter().all(|&r| r));
}

#[test]
fn occupied_cells_lists_enemies_then_snake() {
    let mut s = MainState::starting(pt(4, 4), pt(20, 10));
    s.enemies.push(Enemy::with_position(pt(8, 8)));
    let cells = s.occupied_cells(vec![cell(0, 0)]);
    assert_eq!(
        cells,
        vec![cell(0, 0), rect(20, 10, 2, 2), rect(8, 8, 2, 2), cell(1, 20), cell(1, 21), cell(1, 22)]
    );
    assert_eq!(s.occupied_cells(Vec::new()).len(), 5);
}

#[test]
fn without_leaves_one_out() {
    let cells = [cell(0, 0), cell(1, 1), cell(2, 2)];
    assert_eq!(without(&cells, 0), vec![cell(1, 1), cell(2, 2)]);
    assert_eq!(without(&cells, 1), vec![cell(0, 0), cell(2, 2)]);
    assert_eq!(without(&cells, 2), vec![cell(0, 0), cell(1, 1)]);
    assert_eq!(without(&[cell(4, 4)], 0), Vec::new());
}

#[test]
fn place_food_takes_free_cells_only() {
    let mut s = MainState::starting(pt(4, 4), pt(20, 10));
    assert!(s.place_food(pt(6, 6)));
    assert_eq!(s.food, pt(6, 6));
    // under the snake
    assert!(!s.place_food(pt(1, 21)));
    // under the enemy
    assert!(!s.place_food(pt(21, 11)));
    // off the grid
    assert!(!s.place_food(pt(30, 0)));
    assert!(!s.place_food(pt(0, -1)));
    assert_eq!(s.food, pt(6, 6));
    assert!(s.place_food(pt(22, 11)));
    assert_eq!(s.food, pt(22, 11));
}

#[test]
fn respawned_food_avoids_the_snake() {
    let free = [(3, 0), (17, 9), (29, 22)];
    let mut s = quiet_game();
    s.snake.parts = all_cells_but(&free);
    let mut seen = Vec::new();
    for _ in 0..200 {
        s.respawn_food();
        assert!(free.contains(&(s.food.x, s.food.y)));
        assert!(!s.snake.overlapping(&cell(s.food.x, s.food.y)));
        if !seen.contains(&s.food) {
            seen.push(s.food);
        }
    }
    assert!(!seen.is_empty());
}

#[test]
fn respawned_food_avoids_snake_and_enemies() {
    let mut s = MainState::starting(pt(1, 20), pt(0, 0));
    s.enemies.push(Enemy::with_position(pt(10, 10)));
    for _ in 0..500 {
        s.respawn_food();
        let food = cell(s.food.x, s.food.y);
        assert!(in_grid(&food));
        assert!(!s.snake.overlapping(&food));
        assert!(!s.enemies_on(&food));
    }
}

#[test]
fn respawn_finds_the_last_free_cell() {
    let mut s = quiet_game();
    s.snake.parts = all_cells_but(&[(12, 7)]);
    s.food = pt(0, 0);
    s.respawn_food();
    assert_eq!(s.food, pt(12, 7));
}

#[test]
fn respawn_on_a_full_grid_leaves_the_food() {
    let mut s = quiet_game();
    s.snake.parts = all_cells_but(&[]);
    s.food = pt(9, 9);
    s.respawn_food();
    assert_eq!(s.food, pt(9, 9));
}

#[test]
fn scores_are_kept_descending_and_once() {
    let mut scores = Vec::new();
    record_score(&mut scores, 5);
    assert_eq!(scores, vec![5]);
    record_score(&mut scores, 9);
    assert_eq!(scores, vec![9, 5]);
    record_score(&mut scores, 3);
    assert_eq!(scores, vec![9, 5, 3]);
    record_score(&mut scores, 7);
    assert_eq!(scores, vec![9, 7, 5, 3]);
    record_score(&mut scores, 5);
    record_score(&mut scores, 9);
    record_score(&mut scores, 3);
    assert_eq!(scores, vec![9, 7, 5, 3]);
    record_score(&mut scores, 0);
    record_score(&mut scores, u64::MAX);
    assert_eq!(scores, vec![u64::MAX, 9, 7, 5, 3, 0]);
}

#[test]
fn enemies_on_a_rect() {
    let s = MainState::starting(pt(4, 4), pt(20, 10));
    assert!(s.enemies_on(&cell(21, 11)));
    assert!(s.enemies_on(&rect(19, 9, 2, 2)));
    assert!(!s.enemies_on(&cell(22, 10)));
    assert!(!quiet_game().enemies_on(&cell(21, 11)));
}

#[test]
fn lost_by_collision_bounds_or_enemy() {
    let mut s = quiet_game();
    assert!(!s.is_lost());
    s.snake.parts = vec![cell(3, 3), cell(4, 3), cell(3, 3)];
    assert!(s.is_lost());
    s.snake.parts = vec![cell(30, 3), cell(29, 3)];
    assert!(s.is_lost());
    s.snake.parts = vec![cell(5, 23), cell(5, 22)];
    assert!(s.is_lost());
    s.snake.parts = vec![cell(5, 5), cell(5, 6)];
    assert!(!s.is_lost());
    s.enemies.push(Enemy::with_position(pt(4, 4)));
    assert!(s.is_lost());
    // an enemy on the body alone does not end the game
    s.enemies[0].rect.pos = pt(5, 6);
    assert!(!s.is_lost());
}

#[test]
fn lose_records_and_restarts() {
    let mut s = MainState::starting(pt(1, 20), pt(20, 10));
    s.scores = vec![9, 2];
    s.snake.parts = vec![cell(7, 7), cell(7, 8), cell(7, 9), cell(7, 10), cell(7, 11)];
    s.snake.update_count = 40;
    s.snake.grow();
    s.lose();
    assert_eq!(s.scores, vec![9, 5, 2]);
    assert_eq!(s.snake.parts, Snake::new().parts);
    assert_eq!(s.snake.update_count, 0);
    assert!(!s.snake.growing);
    assert_eq!(s.snake.dir, MovingDir::EAST);
    assert!(s.enemies.is_empty());
    assert!(in_grid(&cell(s.food.x, s.food.y)));
    assert!(!s.snake.overlapping(&cell(s.food.x, s.food.y)));
    assert_eq!(s.enemy_spawn_rate, 3);

    s.snake.parts = vec![cell(7, 7), cell(7, 8)];
    s.lose();
    assert_eq!(s.scores, vec![9, 5, 2]);
    s.lose();
    assert_eq!(s.scores, vec![9, 5, 3, 2]);
}

#[test]
fn edge_spans() {
    assert_eq!(edge_span(MovingDir::WEST, 2, 2), 22);
    assert_eq!(edge_span(MovingDir::EAST, 2, 2), 22);
    assert_eq!(edge_span(MovingDir::NORTH, 2, 2), 29);
    assert_eq!(edge_span(MovingDir::SOUTH, 2, 2), 29);
    assert_eq!(edge_span(MovingDir::WEST, 5, 23), 1);
    assert_eq!(edge_span(MovingDir::NORTH, 30, 1), 1);
}

#[test]
fn edge_positions() {
    assert_eq!(edge_position(MovingDir::WEST, 7, 2, 2), pt(0, 7));
    assert_eq!(edge_position(MovingDir::EAST, 7, 2, 2), pt(28, 7));
    assert_eq!(edge_position(MovingDir::NORTH, 7, 2, 2), pt(7, 0));
    assert_eq!(edge_position(MovingDir::SOUTH, 7, 2, 2), pt(7, 21));
    assert_eq!(edge_position(MovingDir::EAST, 0, 3, 1), pt(27, 0));
    assert_eq!(edge_position(MovingDir::SOUTH, 28, 1, 3), pt(28, 20));
    for side in [MovingDir::NORTH, MovingDir::EAST, MovingDir::SOUTH, MovingDir::WEST] {
        for along in 0..edge_span(side, 2, 2) {
            let p = edge_position(side, along, 2, 2);
            assert!(in_grid(&rect(p.x, p.y, 2, 2)));
        }
    }
}

#[test]
fn try_edge_spawn_refuses_occupied_places() {
    let s = MainState::starting(pt(10, 0), pt(28, 4));
    assert_eq!(s.try_edge_spawn(MovingDir::WEST, 3, 2, 2), Some(pt(0, 3)));
    // the snake stands in column 1, rows 20 to 22
    assert_eq!(s.try_edge_spawn(MovingDir::WEST, 19, 2, 2), None);
    assert_eq!(s.try_edge_spawn(MovingDir::WEST, 18, 2, 2), Some(pt(0, 18)));
    assert_eq!(s.try_edge_spawn(MovingDir::SOUTH, 0, 2, 2), None);
    assert_eq!(s.try_edge_spawn(MovingDir::SOUTH, 2, 2, 2), Some(pt(2, 21)));
    // the enemy at (28, 4)
    assert_eq!(s.try_edge_spawn(MovingDir::EAST, 5, 2, 2), None);
    assert_eq!(s.try_edge_spawn(MovingDir::EAST, 6, 2, 2), Some(pt(28, 6)));
    // the food at (10, 0)
    assert_eq!(s.try_edge_spawn(MovingDir::NORTH, 9, 2, 2), None);
    assert_eq!(s.try_edge_spawn(MovingDir::NORTH, 10, 2, 2), None);
    assert_eq!(s.try_edge_spawn(MovingDir::NORTH, 11, 2, 2), Some(pt(11, 0)));
    // a place beyond the side
    assert_eq!(s.try_edge_spawn(MovingDir::NORTH, 29, 2, 2), None);
    assert_eq!(s.try_edge_spawn(MovingDir::NORTH, -1, 2, 2), None);
}

#[test]
fn random_edge_position_is_valid() {
    let s = MainState::starting(pt(10, 0), pt(28, 4));
    let mut found = 0;
    for _ in 0..300 {
        if let Some(p) = s.random_edge_valid_rect_spawn_position(2, 2) {
            found += 1;
            let r = rect(p.x, p.y, 2, 2);
            assert!(in_grid(&r));
            assert!(p.x == 0 || p.y == 0 || p.x == 28 || p.y == 21);
            assert!(!s.snake.overlapping(&r));
            assert!(!s.enemies_on(&r));
            assert!(!r.overlapping(&cell(10, 0)));
        }
    }
    assert!(found > 0);
}

#[test]
fn first_place_on_each_side() {
    // the snake stands in column 1, rows 20 to 22
    let s = MainState::starting(pt(10, 0), pt(28, 4));
    assert_eq!(s.first_place_on_side(MovingDir::WEST, 2, 2), Some(0));
    assert_eq!(s.first_place_on_side(MovingDir::EAST, 2, 2), Some(0));
    assert_eq!(s.first_place_on_side(MovingDir::NORTH, 2, 2), Some(0));
    assert_eq!(s.first_place_on_side(MovingDir::SOUTH, 2, 2), Some(2));
    assert_eq!(s.first_edge_place(2, 2), Some((MovingDir::WEST, 0)));
}

#[test]
fn search_passes_over_a_taken_side() {
    let mut s = MainState::starting(pt(10, 0), pt(28, 0));
    s.snake.parts = (0..23).map(|y| cell(0, y)).collect();
    assert_eq!(s.first_place_on_side(MovingDir::WEST, 2, 2), None);
    // the enemy covers the rows 0 and 1 of the east side
    assert_eq!(s.first_place_on_side(MovingDir::EAST, 2, 2), Some(2));
    assert_eq!(s.first_place_on_side(MovingDir::NORTH, 2, 2), Some(1));
    assert_eq!(s.first_edge_place(2, 2), Some((MovingDir::EAST, 2)));
    assert_eq!(s.first_edge_place(30, 23), None);
}

#[test]
fn the_one_free_edge_place_is_found() {
    let mut s = quiet_game();
    s.snake.parts = all_cells_but(&[(0, 5), (1, 5), (0, 6), (1, 6)]);
    assert_eq!(s.first_edge_place(2, 2), Some((MovingDir::WEST, 5)));
    for _ in 0..10 {
        assert_eq!(s.random_edge_valid_rect_spawn_position(2, 2), Some(pt(0, 5)));
    }
    s.spawn_enemy();
    assert_eq!(s.enemies, vec![Enemy::with_position(pt(0, 5))]);
    assert_eq!(s.random_edge_valid_rect_spawn_position(2, 2), None);
    s.spawn_enemy();
    assert_eq!(s.enemies.len(), 1);
}

#[test]
fn food_keeps_an_edge_place_clear() {
    let mut s = quiet_game();
    s.snake.parts = all_cells_but(&[(0, 5), (1, 5), (0, 6), (1, 6)]);
    s.food = pt(1, 6);
    assert_eq!(s.first_edge_place(2, 2), None);
    assert_eq!(s.random_edge_valid_rect_spawn_position(2, 2), None);
    s.spawn_enemy();
    assert!(s.enemies.is_empty());
}

#[test]
fn no_edge_position_on_a_full_grid() {
    let mut s = quiet_game();
    s.snake.parts = all_cells_but(&[(15, 10)]);
    assert_eq!(s.random_edge_valid_rect_spawn_position(2, 2), None);
    s.spawn_enemy();
    assert!(s.enemies.is_empty());
}

#[test]
fn spawned_enemy_enters_at_a_side() {
    let mut s = MainState::starting(pt(10, 0), pt(28, 4));
    for wanted in 2..8 {
        while s.enemies.len() < wanted {
            let before = s.enemies.clone();
            s.spawn_enemy();
            assert_eq!(&s.enemies[..before.len()], &before[..]);
            assert!(s.enemies.len() <= before.len() + 1);
        }
        let e = s.enemies[wanted - 1];
        assert_eq!(e, Enemy::with_position(e.rect.pos));
        assert!(in_grid(&e.rect));
        assert!(e.rect.pos.x == 0 || e.rect.pos.y == 0 || e.rect.pos.x == 28 || e.rect.pos.y == 21);
        assert!(!s.snake.overlapping(&e.rect));
        assert!(!e.rect.overlapping(&cell(10, 0)));
        for other in &s.enemies[..wanted - 1] {
            assert!(!other.overlapping(&e.rect));
        }
    }
}

#[test]
fn spawn_due_needs_a_low_roll_and_room() {
    let mut s = MainState::starting(pt(4, 4), pt(20, 10));
    assert!(s.spawn_due(0));
    assert!(s.spawn_due(2));
    assert!(!s.spawn_due(3));
    assert!(!s.spawn_due(9999));
    while s.enemies.len() < 10 {
        s.enemies.push(Enemy::with_position(pt(0, 0)));
    }
    assert!(!s.spawn_due(0));
    s.enemies.pop();
    assert!(s.spawn_due(0));
}

#[test]
fn enemies_move_one_step_on_their_cadence() {
    let mut s = MainState::starting(pt(4, 4), pt(20, 10));
    s.enemies.push(Enemy::with_position(pt(8, 8)));
    s.enemies[1].update_count = 1;
    s.move_enemies();
    assert_eq!(s.enemies.len(), 2);
    let p = s.enemies[0].rect.pos;
    assert_eq!((p.x - 20).abs() + (p.y - 10).abs(), 1);
    assert_eq!(s.enemies[0].update_count, 1);
    assert_eq!(s.enemies[1].rect, rect(8, 8, 2, 2));
    assert_eq!(s.enemies[1].update_count, 2);
    assert_eq!(s.snake.parts, Snake::new().parts);
    assert_eq!(s.food, pt(4, 4));
}

#[test]
fn hemmed_in_enemy_stays() {
    // a snake laid around the enemy leaves it no step
    let mut s = quiet_game();
    s.enemies.push(Enemy::with_position(pt(10, 10)));
    s.snake.parts = vec![cell(9, 10), cell(12, 10), cell(10, 9), cell(10, 12)];
    for _ in 0..50 {
        s.enemies[0].update_count = 0;
        s.move_enemies();
        assert_eq!(s.enemies[0].rect, rect(10, 10, 2, 2));
        assert_eq!(s.enemies[0].update_count, 1);
    }
}

#[test]
fn enemies_do_not_see_each_other_move() {
    // two enemies side by side: neither may step onto where the other stood
    let mut s = quiet_game();
    s.enemies.push(Enemy::with_position(pt(10, 10)));
    s.enemies.push(Enemy::with_position(pt(12, 10)));
    for _ in 0..200 {
        s.enemies[0] = Enemy::with_position(pt(10, 10));
        s.enemies[1] = Enemy::with_position(pt(12, 10));
        s.move_enemies();
        assert_ne!(s.enemies[0].rect.pos, pt(11, 10));
        assert_ne!(s.enemies[1].rect.pos, pt(11, 10));
    }
}

#[test]
fn update_steps_the_snake() {
    let mut s = quiet_game();
    s.enemy_spawn_rate = 0;
    s.update();
    assert_eq!(s.snake.parts, vec![cell(2, 20), cell(1, 20), cell(1, 21)]);
    assert_eq!(s.snake.update_count, 1);
    assert!(s.enemies.is_empty());
    assert!(s.scores.is_empty());
    assert_eq!(s.food, pt(15, 5));
}

#[test]
fn update_feeds_the_snake() {
    let mut s = quiet_game();
    s.enemy_spawn_rate = 0;
    s.food = pt(2, 20);
    s.update();
    assert!(s.snake.growing);
    assert_eq!(s.snake.parts.len(), 3);
    assert_ne!(s.food, pt(2, 20));
    assert!(!s.snake.overlapping(&cell(s.food.x, s.food.y)));
    s.food = pt(15, 5);
    for _ in 0..17 {
        s.update();
    }
    assert_eq!(s.snake.parts, vec![cell(3, 20), cell(2, 20), cell(1, 20), cell(1, 21)]);
    assert!(!s.snake.growing);
}

#[test]
fn update_ends_the_game_at_the_wall() {
    let mut s = quiet_game();
    s.enemy_spawn_rate = 0;
    s.snake.parts = vec![cell(29, 5), cell(28, 5), cell(27, 5), cell(26, 5)];
    s.update();
    assert_eq!(s.scores, vec![4]);
    assert_eq!(s.snake.parts, Snake::new().parts);
    assert_eq!(s.snake.update_count, 0);
    assert!(s.enemies.is_empty());
}

#[test]
fn update_ends_the_game_on_self_collision() {
    let mut s = quiet_game();
    s.enemy_spawn_rate = 0;
    s.scores = vec![10, 6];
    s.snake.parts = vec![cell(2, 2), cell(2, 1), cell(1, 1), cell(1, 2), cell(1, 3), cell(1, 4)];
    s.snake.dir = MovingDir::SOUTH;
    s.snake.changingdir = MovingDir::WEST;
    s.update();
    assert_eq!(s.scores, vec![10, 6]);
    assert_eq!(s.snake.parts, Snake::new().parts);
}

#[test]
fn update_ends_the_game_under_an_enemy() {
    let mut s = quiet_game();
    s.enemy_spawn_rate = 0;
    // the snake steps to (2, 20), where an enemy that is not due to move sits
    s.enemies.push(Enemy::with_position(pt(2, 19)));
    s.enemies[0].update_count = 1;
    s.update();
    assert_eq!(s.scores, vec![3]);
    assert!(s.enemies.is_empty());
    assert_eq!(s.snake.parts, Snake::new().parts);
}

#[test]
fn update_moves_food_from_under_an_enemy() {
    let mut s = quiet_game();
    s.enemy_spawn_rate = 0;
    s.enemies.push(Enemy::with_position(pt(15, 10)));
    s.enemies[0].update_count = 1;
    s.food = pt(16, 11);
    s.update();
    assert_ne!(s.food, pt(16, 11));
    assert!(!s.enemies_on(&cell(s.food.x, s.food.y)));
    assert!(!s.snake.overlapping(&cell(s.food.x, s.food.y)));
    assert_eq!(s.enemies[0].rect, rect(15, 10, 2, 2));
    assert_eq!(s.enemies[0].update_count, 2);
}

#[test]
fn update_lets_enemies_in_up_to_the_cap() {
    let mut s = quiet_game();
    s.enemy_spawn_rate = SPAWN_ODDS;
    // keep the snake in place so that the game goes on
    for _ in 0..200 {
        s.snake.update_count = 1;
        for e in s.enemies.iter_mut() {
            e.update_count = 1;
        }
        s.update();
        assert!(s.enemies.len() <= 10);
        assert!(s.scores.is_empty());
    }
    assert_eq!(s.enemies.len(), 10);
    for (i, e) in s.enemies.iter().enumerate() {
        assert!(in_grid(&e.rect));
        for other in &s.enemies[..i] {
            assert!(!other.overlapping(&e.rect));
        }
    }
}

#[test]
fn update_never_spawns_at_rate_zero() {
    let mut s = quiet_game();
    s.enemy_spawn_rate = 0;
    for _ in 0..300 {
        s.snake.update_count = 1;
        s.update();
    }
    assert!(s.enemies.is_empty());
}
