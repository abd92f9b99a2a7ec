//! Grid simulation of a snake game: the snake, the enemies that wander the
//! grid, the food, and the rules by which they move, grow and collide.
//!
//! Every rule is stated as a contract over plain mathematical values and
//! proved. Drawing, input polling and timing are left to the caller.

pub mod cellrect;
mod dice;
pub mod direction;
pub mod enemy;
pub mod grid;
pub mod scores;
pub mod snake;
pub mod world;
