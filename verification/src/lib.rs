//! A falling-block game on a field of ten columns and twenty rows: the grid,
//! the catalog of bricks, the falling brick with its steps and rotations, the
//! removal of full rows, score and level, and the game with its phases.

pub mod board;
pub mod brick;
pub mod catalog;
pub mod constants;
pub mod control;
pub mod game_data;
pub mod game_view;
pub mod state;
pub mod timers;
