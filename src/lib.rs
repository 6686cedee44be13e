//! An N-in-a-row board game on a square grid: the board with its win and
//! draw rules, a random opponent, and the title / game / finish state machine.

pub mod ai;
pub mod board;
pub mod renderer;
pub mod state;
pub mod stone;
