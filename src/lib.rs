//! A falling-block puzzle engine: a 10 x 20 board, seven piece shapes,
//! gravity steps, collision, line clearing, rotation and scoring.

pub mod piece;
pub mod board;
pub mod game;
pub mod laws;
