//! A snake game engine on a square grid whose edges wrap around.
//!
//! `grid` holds the coordinate arithmetic of the torus, `world` the state of
//! one game: the snake, the reward cell and the game status.
pub mod grid;
pub mod world;

pub use grid::{neighbor_index, Direction};
pub use world::{GameStatus, Snake, SnakeCell, World, WorldView, SNAKE_INIT_SIZE};
