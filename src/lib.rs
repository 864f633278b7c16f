//! A terminal snake game: a grid simulation advanced one tick at a time, with
//! the movement, collision, food placement and win/loss rules proved correct.

pub mod board;
pub mod coord;
pub mod food;
pub mod game;
pub mod laws;

pub use board::Tile;
pub use coord::{Coord, Input};
pub use game::{ConfigError, Game, GameState, TermUpdate, TermUpdateType};
