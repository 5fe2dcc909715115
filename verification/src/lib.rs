//! A snake simulation on a toroidal grid: movement, growth, collision,
//! food placement and the round's state machine.

pub mod cells;
pub mod food;
pub mod game;
pub mod grid;
pub mod snake;
