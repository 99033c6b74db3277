//! Rules engine of a falling-block puzzle game: a fixed grid, the falling
//! piece, placement legality, rotation with kicks, row clearing and the
//! fair sequence in which shapes are drawn.

pub mod board;
pub mod game;
pub mod position;
pub mod randombag;
pub mod source;
pub mod tetromino;
