//! State machine of a sliding-robot puzzle played on a 16 by 16 grid.
//!
//! A [`Board`] holds a fixed maze of walls, four robots and a target tile. A
//! robot moves by sliding: it travels in a straight line until a wall, another
//! robot, the box at the centre or the rim of the grid stops it. A [`Game`] owns
//! a board and its players and starts the rounds, each with a new target.
//! [`Games`] files games under random identifiers.

pub mod board;
mod entropy;
pub mod error;
pub mod game;
pub mod games;
pub mod grid;
pub mod maze;
pub mod model;
pub mod wall;

pub use board::Board;
pub use error::GameError;
pub use game::{Game, Player};
pub use games::Games;
pub use grid::{Direction, Tile};
pub use wall::Wall;
