//! Core of a falling-block puzzle game: the board, the seven tetrominoes and
//! their rotations, the seven-piece bag, gravity and locking, hold, the ghost
//! projection and line clearing with scoring.
pub mod bag;
pub mod board;
pub mod gamescore;
pub mod gamestate;
pub mod tetlib;
pub mod tetrominoe;
