//! Core of a terminal snake game: a deterministic grid simulation of a
//! moving, growing snake together with fruit placement, plus the startup
//! configuration that tunes it.  Everything here is verified; drawing and
//! key handling live outside.

pub mod board;
pub mod config;
pub mod game;
pub mod geometry;
pub mod snake;
mod rng;

pub use board::Board;
pub use config::Config;
pub use game::{render_board, Game};
pub use geometry::{Direction, Point};
pub use snake::Snake;
