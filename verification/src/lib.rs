pub mod ai;
pub mod board;
pub mod game;
pub mod types;
