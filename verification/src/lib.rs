//! A falling-block puzzle engine: a 10x20 occupancy grid, a falling
//! four-cell piece with its per-shape rotation transform, movement
//! legality checking, row-clearing with cascade, and the score/level
//! policy driven by cleared-line counts.

pub mod block;
pub mod color;
pub mod game;

