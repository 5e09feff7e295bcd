pub mod clamp;
pub mod game;
pub mod grid;
pub mod laws;
pub mod piece;
